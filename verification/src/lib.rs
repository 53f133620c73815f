//! Typed values from a person at a terminal, asked for line by line.
//!
//! A written field asks until an answer reads as a value of the type wanted,
//! and falls back to its default on an empty answer. A selection asks once
//! for one of its options, by label or by number. A menu of actions is gone
//! through level by level. Fields take the layout of their prompts from the
//! container that asks them, as far as they do not set it themselves.
//!
//! Everything is asked over a [`MenuStream`](stream::MenuStream): the lines
//! that will be answered, and the text shown so far. The decisions on one
//! answer stand each in a function of its own, for a program that reads the
//! answers itself.

pub mod error;
pub mod field;
pub mod format;
pub mod menu;
pub mod parse;
pub mod prelude;
pub mod reader;
pub mod select;
pub mod stream;
pub mod text;
pub mod utils;
