//! Composing styled strings: the chaining forms of the operations, the string of a plain
//! text, and the operator `+`, which appends a text or a string.

use vstd::prelude::*;

use crate::string::model::{appended, restyled, style_merged, text_appended, Run};
use crate::string::TermString;
use crate::style::model::{set_add_all, set_or_all, StyleOp};
use crate::style::TermStyle;

verus! {

impl TermString {
    /// The string with `text` appended: see `append_str`.
    pub fn with_appended_str(self, text: &str) -> (r: TermString)
        ensures
            r@ == text_appended(self@, text@),
    {
        let mut string = self;
        string.append_str(text);
        string
    }

    /// The string with `other` appended: see `append_term_str`.
    pub fn with_appended_term_str(self, other: TermString) -> (r: TermString)
        ensures
            r@ == appended(self@, other@),
    {
        let mut string = self;
        string.append_term_str(other);
        string
    }

    /// The string with `other` appended: see `append`.
    pub fn with_appended(self, other: TermString) -> (r: TermString)
        ensures
            r@ == appended(self@, other@),
    {
        let mut string = self;
        string.append(other);
        string
    }

    /// The string with every run in `style`: see `set_style`.
    pub fn with_set_style(self, style: TermStyle) -> (r: TermString)
        ensures
            r@ == restyled(self@, style),
    {
        let mut string = self;
        string.set_style(style);
        string
    }

    /// The string with the style of every run emptied: see `reset_style`.
    pub fn with_reset_style(self) -> (r: TermString)
        ensures
            r@ == restyled(self@, TermStyle::empty()),
    {
        let mut string = self;
        string.reset_style();
        string
    }

    /// The string with `style` or-merged into every run: see `or_style`.
    pub fn with_ored_style(self, style: TermStyle) -> (r: TermString)
        ensures
            r@ == style_merged(self@, StyleOp::Or, style),
            forall|i: int|
                0 <= i < self@.len() ==> (#[trigger] r@[i]).style@ == set_or_all(
                    self@[i].style@,
                    style@,
                ),
    {
        let mut string = self;
        string.or_style(style);
        string
    }

    /// The string with `style` add-merged into every run: see `add_style`.
    pub fn with_style(self, style: TermStyle) -> (r: TermString)
        ensures
            r@ == style_merged(self@, StyleOp::Add, style),
            forall|i: int|
                0 <= i < self@.len() ==> (#[trigger] r@[i]).style@ == set_add_all(
                    self@[i].style@,
                    style@,
                ),
    {
        let mut string = self;
        string.add_style(style);
        string
    }
}

impl<'a> From<&'a str> for TermString {
    /// The string of one run: `text` in the empty style.
    fn from(text: &'a str) -> (r: TermString)
        ensures
            r@ == seq![Run { style: TermStyle::empty(), text: text@ }],
    {
        TermString::new(TermStyle::default(), text)
    }
}

impl<'a> vstd::std_specs::convert::FromSpecImpl<&'a str> for TermString {
    /// A string is known by its runs alone: nothing is said of it by a value.
    open spec fn obeys_from_spec() -> bool {
        false
    }

    open spec fn from_spec(text: &'a str) -> TermString {
        arbitrary()
    }
}

impl<'a> core::ops::Add<&'a str> for TermString {
    type Output = TermString;

    /// The string with `text` appended: see `append_str`.
    fn add(self, text: &'a str) -> (r: TermString)
        ensures
            r@ == text_appended(self@, text@),
    {
        self.with_appended_str(text)
    }
}

impl<'a> vstd::std_specs::ops::AddSpecImpl<&'a str> for TermString {
    /// A string is known by its runs alone: nothing is said of the sum by a value.
    open spec fn obeys_add_spec() -> bool {
        false
    }

    open spec fn add_req(self, text: &'a str) -> bool {
        true
    }

    open spec fn add_spec(self, text: &'a str) -> TermString {
        arbitrary()
    }
}

impl<'a> core::ops::AddAssign<&'a str> for TermString {
    /// Appends `text`: see `append_str`.
    fn add_assign(&mut self, text: &'a str)
        ensures
            final(self)@ == text_appended(old(self)@, text@),
    {
        self.append_str(text);
    }
}

impl core::ops::Add<TermString> for TermString {
    type Output = TermString;

    /// The string with `other` appended: see `append_term_str`.
    fn add(self, other: TermString) -> (r: TermString)
        ensures
            r@ == appended(self@, other@),
    {
        self.with_appended_term_str(other)
    }
}

impl vstd::std_specs::ops::AddSpecImpl<TermString> for TermString {
    /// A string is known by its runs alone: nothing is said of the sum by a value.
    open spec fn obeys_add_spec() -> bool {
        false
    }

    open spec fn add_req(self, other: TermString) -> bool {
        true
    }

    open spec fn add_spec(self, other: TermString) -> TermString {
        arbitrary()
    }
}

impl core::ops::AddAssign<TermString> for TermString {
    /// Appends `other`: see `append_term_str`.
    fn add_assign(&mut self, other: TermString)
        ensures
            final(self)@ == appended(old(self)@, other@),
    {
        self.append_term_str(other);
    }
}

} // verus!
