//! Display attributes and their kinds.

use vstd::prelude::*;

verus! {

/// A terminal colour number.
pub type Color = term::color::Color;

/// The kind of a display attribute: what it controls, whatever its payload.
#[derive(Clone, Copy, Debug, PartialEq, Eq, Hash, Structural)]
pub enum AttrKind {
    Bold,
    Dim,
    Italic,
    Underline,
    Blink,
    Standout,
    Reverse,
    Secure,
    ForegroundColor,
    BackgroundColor,
}

/// One display attribute. Flag kinds carry no data; the others carry one payload.
#[derive(Clone, Copy, Debug, PartialEq, Eq, Hash, Structural)]
pub enum Attr {
    Bold,
    Dim,
    Italic(bool),
    Underline(bool),
    Blink,
    Standout(bool),
    Reverse,
    Secure,
    ForegroundColor(Color),
    BackgroundColor(Color),
}

impl Attr {
    /// The kind of this attribute.
    pub open spec fn spec_kind(self) -> AttrKind {
        match self {
            Attr::Bold => AttrKind::Bold,
            Attr::Dim => AttrKind::Dim,
            Attr::Italic(_) => AttrKind::Italic,
            Attr::Underline(_) => AttrKind::Underline,
            Attr::Blink => AttrKind::Blink,
            Attr::Standout(_) => AttrKind::Standout,
            Attr::Reverse => AttrKind::Reverse,
            Attr::Secure => AttrKind::Secure,
            Attr::ForegroundColor(_) => AttrKind::ForegroundColor,
            Attr::BackgroundColor(_) => AttrKind::BackgroundColor,
        }
    }

    /// The kind of this attribute.
    #[verifier::when_used_as_spec(spec_kind)]
    pub fn kind(self) -> (k: AttrKind)
        ensures
            k == self.spec_kind(),
    {
        match self {
            Attr::Bold => AttrKind::Bold,
            Attr::Dim => AttrKind::Dim,
            Attr::Italic(_) => AttrKind::Italic,
            Attr::Underline(_) => AttrKind::Underline,
            Attr::Blink => AttrKind::Blink,
            Attr::Standout(_) => AttrKind::Standout,
            Attr::Reverse => AttrKind::Reverse,
            Attr::Secure => AttrKind::Secure,
            Attr::ForegroundColor(_) => AttrKind::ForegroundColor,
            Attr::BackgroundColor(_) => AttrKind::BackgroundColor,
        }
    }

    /// Whether both attributes are of one kind, whatever their payloads.
    pub fn same_kind(self, other: Attr) -> (r: bool)
        ensures
            r == (self.kind() == other.kind()),
    {
        self.kind() == other.kind()
    }
}

} // verus!
