//! The errors that asking for a value can end in.

use vstd::prelude::*;

verus! {

/// Why a value could not be had.
#[derive(Debug, PartialEq, Eq)]
pub enum MenuError {
    /// Reading from or writing to the stream failed; the text says how.
    IOFailure(String),
    /// An answer does not read as the type asked for: the answer, then the
    /// name of the type.
    ParseFailure(String, String),
    /// An answer names none of the options offered, and no default stands
    /// in: the answer.
    InvalidSelection(String),
    /// The environment variable that a default was to come from is not set:
    /// the variable's name.
    MissingEnvironmentDefault(String),
    /// A default does not fit the field it was declared for, which is a
    /// mistake of the program and not of its user: the default as written.
    MisconfiguredDefault(String),
    /// The input ended while a value was still owed.
    NoMoreInput,
    /// A failure of the caller's own, raised by a binding.
    Other(String),
}

impl MenuError {
    /// Whether this is `InvalidSelection` with the answer `raw`.
    pub open spec fn is_invalid_selection(self, raw: Seq<char>) -> bool {
        self matches MenuError::InvalidSelection(s) && s@ == raw
    }

    /// Whether this is `MissingEnvironmentDefault` with the variable `name`.
    pub open spec fn is_missing_environment_default(self, name: Seq<char>) -> bool {
        self matches MenuError::MissingEnvironmentDefault(s) && s@ == name
    }

    /// Whether this is `MisconfiguredDefault` with the default `text`.
    pub open spec fn is_misconfigured_default(self, text: Seq<char>) -> bool {
        self matches MenuError::MisconfiguredDefault(s) && s@ == text
    }

    /// Whether this is `ParseFailure` with the answer `raw` and the type
    /// `kind`.
    pub open spec fn is_parse_failure(self, raw: Seq<char>, kind: Seq<char>) -> bool {
        self matches MenuError::ParseFailure(s, k) && s@ == raw && k@ == kind
    }
}

/// What asking for a value returns.
pub type MenuResult<T = ()> = Result<T, MenuError>;

} // verus!
