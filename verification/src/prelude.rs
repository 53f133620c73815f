//! The names that a program asking for values needs.

pub use crate::error::{MenuError, MenuResult};
pub use crate::field::{DefaultValue, Field, FieldDetails, Query, SelectField, ValueField};
pub use crate::format::ValueFieldFormatting;
pub use crate::menu::{Cursor, Fields, Found, Kind, Menu, Move, Res, Streamable, Values};
pub use crate::parse::FromInput;
pub use crate::reader::{Many, One, Reader};
pub use crate::select::SelectMenu;
pub use crate::stream::{MenuStream, Stream};
pub use crate::utils::{default_failed, keep, number_of, prompt, read_input, select, show};
