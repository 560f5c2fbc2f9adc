//! Styled text for terminals.
//!
//! A [`TermStyle`] is a set of display attributes with at most one attribute of each
//! kind. A [`TermString`] is a sequence of runs, each a text with its style; appending
//! joins neighbouring runs of one style. A string is written to a [`TermWrite`] target
//! with its styles, or as plain text where the target cannot show them; a [`Session`]
//! keeps the record of what the target was sent.

pub mod attr;
pub mod error;
pub mod output;
pub mod string;
pub mod style;

pub use term::color;

pub use attr::{Attr, AttrKind};
pub use error::Error;
pub use output::{Session, StdStream, Step, TermOp, TermWrite, WriteMode};
pub use string::{TermString, TermStringElement};
pub use style::TermStyle;
