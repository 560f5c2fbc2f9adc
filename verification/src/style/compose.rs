//! Composing styles: the chaining forms of the bulk operations, and the operators
//! `|` (or-merge), `+` (add-merge) and `-` (removal of exact attributes).

use vstd::prelude::*;

use crate::attr::Attr;
use crate::style::model::{
    held, set_add, set_add_all, set_apply_all, set_or, set_or_all, set_unset_kinds,
    set_without_kind, slots_add, slots_apply_all, slots_or, slots_unset_exact,
    slots_unset_variant, StyleOp,
};
use crate::style::TermStyle;

verus! {

impl TermStyle {
    /// The style with exactly `attr` removed.
    pub fn without_exact_attr(self, attr: Attr) -> (r: TermStyle)
        ensures
            r.slots() == slots_unset_exact(self.slots(), attr),
            r@ == self@.remove(attr),
    {
        let mut style = self;
        style.unset_exact_attr(attr);
        style
    }

    /// The style with the kind of `attr` removed.
    pub fn without_variant_attr(self, attr: Attr) -> (r: TermStyle)
        ensures
            r.slots() == slots_unset_variant(self.slots(), attr),
            r@ == set_without_kind(self@, attr.kind()),
    {
        let mut style = self;
        style.unset_variant_attr(attr);
        style
    }

    /// The style with `attr` added, in place of any attribute of its kind.
    pub fn with_attr(self, attr: Attr) -> (r: TermStyle)
        ensures
            r.slots() == slots_add(self.slots(), attr),
            r@ == set_add(self@, attr),
    {
        let mut style = self;
        style.add_attr(attr);
        style
    }

    /// The style with `attr` added, unless its kind was held.
    pub fn with_ored_attr(self, attr: Attr) -> (r: TermStyle)
        ensures
            r.slots() == slots_or(self.slots(), attr),
            r@ == set_or(self@, attr),
    {
        let mut style = self;
        style.or_attr(attr);
        style
    }

    /// The style with `other` add-merged into it: on a conflict of kinds the attribute
    /// of `other` wins.
    pub fn with_style(self, other: TermStyle) -> (r: TermStyle)
        ensures
            r == self.merged(StyleOp::Add, other),
            r.slots() == slots_apply_all(self.slots(), StyleOp::Add, held(other.slots())),
            r@ == set_add_all(self@, other@),
    {
        let mut style = self;
        style.add_style(other);
        style
    }

    /// The style with `other` or-merged into it: on a conflict of kinds the style's own
    /// attribute stays.
    pub fn with_ored_style(self, other: TermStyle) -> (r: TermStyle)
        ensures
            r == self.merged(StyleOp::Or, other),
            r.slots() == slots_apply_all(self.slots(), StyleOp::Or, held(other.slots())),
            r@ == set_or_all(self@, other@),
    {
        let mut style = self;
        style.or_style(other);
        style
    }

    /// The style without the attributes that `other` holds exactly.
    pub fn without_exact_style(self, other: TermStyle) -> (r: TermStyle)
        ensures
            r == self.merged(StyleOp::UnsetExact, other),
            r.slots() == slots_apply_all(self.slots(), StyleOp::UnsetExact, held(other.slots())),
            r@ == self@.difference(other@),
    {
        let mut style = self;
        style.unset_exact_style(other);
        style
    }

    /// The style without the attributes of the kinds that `other` holds.
    pub fn without_variant_style(self, other: TermStyle) -> (r: TermStyle)
        ensures
            r == self.merged(StyleOp::UnsetVariant, other),
            r.slots() == slots_apply_all(self.slots(), StyleOp::UnsetVariant, held(other.slots())),
            r@ == set_unset_kinds(self@, other@),
    {
        let mut style = self;
        style.unset_variant_style(other);
        style
    }

    /// The style with each attribute of the list added, in its order.
    pub fn with_attrs(self, attrs: &[Attr]) -> (r: TermStyle)
        ensures
            r.slots() == slots_apply_all(self.slots(), StyleOp::Add, attrs@),
            r@ == set_apply_all(self@, StyleOp::Add, attrs@),
    {
        let mut style = self;
        style.add_attrs(attrs);
        style
    }

    /// The style with each attribute of the list or-ed in, in its order.
    pub fn with_ored_attrs(self, attrs: &[Attr]) -> (r: TermStyle)
        ensures
            r.slots() == slots_apply_all(self.slots(), StyleOp::Or, attrs@),
            r@ == set_apply_all(self@, StyleOp::Or, attrs@),
    {
        let mut style = self;
        style.or_attrs(attrs);
        style
    }

    /// The style without the exact attributes of the list.
    pub fn without_exact_attrs(self, attrs: &[Attr]) -> (r: TermStyle)
        ensures
            r.slots() == slots_apply_all(self.slots(), StyleOp::UnsetExact, attrs@),
            r@ == self@.difference(attrs@.to_set()),
    {
        let mut style = self;
        style.unset_exact_attrs(attrs);
        style
    }

    /// The style without the kinds of the attributes of the list.
    pub fn without_variant_attrs(self, attrs: &[Attr]) -> (r: TermStyle)
        ensures
            r.slots() == slots_apply_all(self.slots(), StyleOp::UnsetVariant, attrs@),
            r@ == set_unset_kinds(self@, attrs@.to_set()),
    {
        let mut style = self;
        style.unset_variant_attrs(attrs);
        style
    }
}

impl core::ops::BitOr<TermStyle> for TermStyle {
    type Output = TermStyle;

    /// The or-merge of both styles: see `with_ored_style`.
    fn bitor(self, other: TermStyle) -> (r: TermStyle)
        ensures
            r == self.merged(StyleOp::Or, other),
            r.slots() == slots_apply_all(self.slots(), StyleOp::Or, held(other.slots())),
            r@ == set_or_all(self@, other@),
    {
        self.with_ored_style(other)
    }
}

impl vstd::std_specs::ops::BitOrSpecImpl<TermStyle> for TermStyle {
    open spec fn obeys_bitor_spec() -> bool {
        true
    }

    open spec fn bitor_req(self, other: TermStyle) -> bool {
        true
    }

    open spec fn bitor_spec(self, other: TermStyle) -> TermStyle {
        self.merged(StyleOp::Or, other)
    }
}

impl core::ops::BitOrAssign<TermStyle> for TermStyle {
    /// Or-merges `other` into the style: see `or_style`.
    fn bitor_assign(&mut self, other: TermStyle)
        ensures
            *final(self) == old(self).merged(StyleOp::Or, other),
            final(self).slots() == slots_apply_all(
                old(self).slots(),
                StyleOp::Or,
                held(other.slots()),
            ),
            final(self)@ == set_or_all(old(self)@, other@),
    {
        self.or_style(other);
    }
}

impl core::ops::Add<TermStyle> for TermStyle {
    type Output = TermStyle;

    /// The add-merge of both styles: see `with_style`.
    fn add(self, other: TermStyle) -> (r: TermStyle)
        ensures
            r == self.merged(StyleOp::Add, other),
            r.slots() == slots_apply_all(self.slots(), StyleOp::Add, held(other.slots())),
            r@ == set_add_all(self@, other@),
    {
        self.with_style(other)
    }
}

impl vstd::std_specs::ops::AddSpecImpl<TermStyle> for TermStyle {
    open spec fn obeys_add_spec() -> bool {
        true
    }

    open spec fn add_req(self, other: TermStyle) -> bool {
        true
    }

    open spec fn add_spec(self, other: TermStyle) -> TermStyle {
        self.merged(StyleOp::Add, other)
    }
}

impl core::ops::AddAssign<TermStyle> for TermStyle {
    /// Add-merges `other` into the style: see `add_style`.
    fn add_assign(&mut self, other: TermStyle)
        ensures
            *final(self) == old(self).merged(StyleOp::Add, other),
            final(self).slots() == slots_apply_all(
                old(self).slots(),
                StyleOp::Add,
                held(other.slots()),
            ),
            final(self)@ == set_add_all(old(self)@, other@),
    {
        self.add_style(other);
    }
}

impl core::ops::Sub<TermStyle> for TermStyle {
    type Output = TermStyle;

    /// The style without the exact attributes of `other`: see `without_exact_style`.
    fn sub(self, other: TermStyle) -> (r: TermStyle)
        ensures
            r == self.merged(StyleOp::UnsetExact, other),
            r.slots() == slots_apply_all(self.slots(), StyleOp::UnsetExact, held(other.slots())),
            r@ == self@.difference(other@),
    {
        self.without_exact_style(other)
    }
}

impl vstd::std_specs::ops::SubSpecImpl<TermStyle> for TermStyle {
    open spec fn obeys_sub_spec() -> bool {
        true
    }

    open spec fn sub_req(self, other: TermStyle) -> bool {
        true
    }

    open spec fn sub_spec(self, other: TermStyle) -> TermStyle {
        self.merged(StyleOp::UnsetExact, other)
    }
}

impl core::ops::SubAssign<TermStyle> for TermStyle {
    /// Removes the exact attributes of `other`: see `unset_exact_style`.
    fn sub_assign(&mut self, other: TermStyle)
        ensures
            *final(self) == old(self).merged(StyleOp::UnsetExact, other),
            final(self).slots() == slots_apply_all(
                old(self).slots(),
                StyleOp::UnsetExact,
                held(other.slots()),
            ),
            final(self)@ == old(self)@.difference(other@),
    {
        self.unset_exact_style(other);
    }
}

} // verus!
