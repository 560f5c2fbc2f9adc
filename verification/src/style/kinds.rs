//! One set of methods for each kind of attribute: to make a style of it, to ask whether a
//! style holds it, to add it and to remove it.

use vstd::prelude::*;

use crate::attr::{Attr, AttrKind, Color};
use crate::style::model::{
    empty_slots, first_free, is_first_free, set_add, set_or, set_without_kind, slots_add,
    slots_or, slots_unset_exact, slots_unset_variant,
};
use crate::style::TermStyle;

verus! {

impl TermStyle {
    /// The style that holds `attr` alone, in its first slot.
    fn single(attr: Attr) -> (r: TermStyle)
        ensures
            r.slots() == empty_slots().update(0, Some(attr)),
            r@ == Set::<Attr>::empty().insert(attr),
    {
        let mut style = TermStyle::default();
        proof {
            assert(is_first_free(empty_slots(), 0));
            assert(first_free(empty_slots()) == 0);
            assert(set_add(Set::<Attr>::empty(), attr) =~= Set::<Attr>::empty().insert(attr));
        }
        style.add_attr(attr);
        style
    }

    /// The style that holds `Attr::Bold` alone.
    pub fn bold() -> (r: TermStyle)
        ensures
            r.slots() == empty_slots().update(0, Some(Attr::Bold)),
            r@ == Set::<Attr>::empty().insert(Attr::Bold),
    {
        TermStyle::single(Attr::Bold)
    }

    /// Whether the style holds `Attr::Bold`.
    pub fn has_bold(&self) -> (r: bool)
        ensures
            r == self@.contains(Attr::Bold),
    {
        self.has_exact_attr(Attr::Bold)
    }

    /// Adds `Attr::Bold` to the style.
    pub fn add_bold(&mut self)
        ensures
            final(self).slots() == slots_add(old(self).slots(), Attr::Bold),
            final(self)@ == set_add(old(self)@, Attr::Bold),
    {
        self.add_attr(Attr::Bold);
    }

    /// The style with `Attr::Bold` added.
    pub fn with_bold(self) -> (r: TermStyle)
        ensures
            r.slots() == slots_add(self.slots(), Attr::Bold),
            r@ == set_add(self@, Attr::Bold),
    {
        self.with_attr(Attr::Bold)
    }

    /// Removes `Attr::Bold` from the style.
    pub fn unset_bold(&mut self)
        ensures
            final(self).slots() == slots_unset_exact(old(self).slots(), Attr::Bold),
            final(self)@ == old(self)@.remove(Attr::Bold),
    {
        self.unset_exact_attr(Attr::Bold);
    }

    /// The style with `Attr::Bold` removed.
    pub fn without_bold(self) -> (r: TermStyle)
        ensures
            r.slots() == slots_unset_exact(self.slots(), Attr::Bold),
            r@ == self@.remove(Attr::Bold),
    {
        self.without_exact_attr(Attr::Bold)
    }

    /// The style that holds `Attr::Dim` alone.
    pub fn dim() -> (r: TermStyle)
        ensures
            r.slots() == empty_slots().update(0, Some(Attr::Dim)),
            r@ == Set::<Attr>::empty().insert(Attr::Dim),
    {
        TermStyle::single(Attr::Dim)
    }

    /// Whether the style holds `Attr::Dim`.
    pub fn has_dim(&self) -> (r: bool)
        ensures
            r == self@.contains(Attr::Dim),
    {
        self.has_exact_attr(Attr::Dim)
    }

    /// Adds `Attr::Dim` to the style.
    pub fn add_dim(&mut self)
        ensures
            final(self).slots() == slots_add(old(self).slots(), Attr::Dim),
            final(self)@ == set_add(old(self)@, Attr::Dim),
    {
        self.add_attr(Attr::Dim);
    }

    /// The style with `Attr::Dim` added.
    pub fn with_dim(self) -> (r: TermStyle)
        ensures
            r.slots() == slots_add(self.slots(), Attr::Dim),
            r@ == set_add(self@, Attr::Dim),
    {
        self.with_attr(Attr::Dim)
    }

    /// Removes `Attr::Dim` from the style.
    pub fn unset_dim(&mut self)
        ensures
            final(self).slots() == slots_unset_exact(old(self).slots(), Attr::Dim),
            final(self)@ == old(self)@.remove(Attr::Dim),
    {
        self.unset_exact_attr(Attr::Dim);
    }

    /// The style with `Attr::Dim` removed.
    pub fn without_dim(self) -> (r: TermStyle)
        ensures
            r.slots() == slots_unset_exact(self.slots(), Attr::Dim),
            r@ == self@.remove(Attr::Dim),
    {
        self.without_exact_attr(Attr::Dim)
    }

    /// The style that holds `Attr::Blink` alone.
    pub fn blink() -> (r: TermStyle)
        ensures
            r.slots() == empty_slots().update(0, Some(Attr::Blink)),
            r@ == Set::<Attr>::empty().insert(Attr::Blink),
    {
        TermStyle::single(Attr::Blink)
    }

    /// Whether the style holds `Attr::Blink`.
    pub fn has_blink(&self) -> (r: bool)
        ensures
            r == self@.contains(Attr::Blink),
    {
        self.has_exact_attr(Attr::Blink)
    }

    /// Adds `Attr::Blink` to the style.
    pub fn add_blink(&mut self)
        ensures
            final(self).slots() == slots_add(old(self).slots(), Attr::Blink),
            final(self)@ == set_add(old(self)@, Attr::Blink),
    {
        self.add_attr(Attr::Blink);
    }

    /// The style with `Attr::Blink` added.
    pub fn with_blink(self) -> (r: TermStyle)
        ensures
            r.slots() == slots_add(self.slots(), Attr::Blink),
            r@ == set_add(self@, Attr::Blink),
    {
        self.with_attr(Attr::Blink)
    }

    /// Removes `Attr::Blink` from the style.
    pub fn unset_blink(&mut self)
        ensures
            final(self).slots() == slots_unset_exact(old(self).slots(), Attr::Blink),
            final(self)@ == old(self)@.remove(Attr::Blink),
    {
        self.unset_exact_attr(Attr::Blink);
    }

    /// The style with `Attr::Blink` removed.
    pub fn without_blink(self) -> (r: TermStyle)
        ensures
            r.slots() == slots_unset_exact(self.slots(), Attr::Blink),
            r@ == self@.remove(Attr::Blink),
    {
        self.without_exact_attr(Attr::Blink)
    }

    /// The style that holds `Attr::Reverse` alone.
    pub fn reverse() -> (r: TermStyle)
        ensures
            r.slots() == empty_slots().update(0, Some(Attr::Reverse)),
            r@ == Set::<Attr>::empty().insert(Attr::Reverse),
    {
        TermStyle::single(Attr::Reverse)
    }

    /// Whether the style holds `Attr::Reverse`.
    pub fn has_reverse(&self) -> (r: bool)
        ensures
            r == self@.contains(Attr::Reverse),
    {
        self.has_exact_attr(Attr::Reverse)
    }

    /// Adds `Attr::Reverse` to the style.
    pub fn add_reverse(&mut self)
        ensures
            final(self).slots() == slots_add(old(self).slots(), Attr::Reverse),
            final(self)@ == set_add(old(self)@, Attr::Reverse),
    {
        self.add_attr(Attr::Reverse);
    }

    /// The style with `Attr::Reverse` added.
    pub fn with_reverse(self) -> (r: TermStyle)
        ensures
            r.slots() == slots_add(self.slots(), Attr::Reverse),
            r@ == set_add(self@, Attr::Reverse),
    {
        self.with_attr(Attr::Reverse)
    }

    /// Removes `Attr::Reverse` from the style.
    pub fn unset_reverse(&mut self)
        ensures
            final(self).slots() == slots_unset_exact(old(self).slots(), Attr::Reverse),
            final(self)@ == old(self)@.remove(Attr::Reverse),
    {
        self.unset_exact_attr(Attr::Reverse);
    }

    /// The style with `Attr::Reverse` removed.
    pub fn without_reverse(self) -> (r: TermStyle)
        ensures
            r.slots() == slots_unset_exact(self.slots(), Attr::Reverse),
            r@ == self@.remove(Attr::Reverse),
    {
        self.without_exact_attr(Attr::Reverse)
    }

    /// The style that holds `Attr::Secure` alone.
    pub fn secure() -> (r: TermStyle)
        ensures
            r.slots() == empty_slots().update(0, Some(Attr::Secure)),
            r@ == Set::<Attr>::empty().insert(Attr::Secure),
    {
        TermStyle::single(Attr::Secure)
    }

    /// Whether the style holds `Attr::Secure`.
    pub fn has_secure(&self) -> (r: bool)
        ensures
            r == self@.contains(Attr::Secure),
    {
        self.has_exact_attr(Attr::Secure)
    }

    /// Adds `Attr::Secure` to the style.
    pub fn add_secure(&mut self)
        ensures
            final(self).slots() == slots_add(old(self).slots(), Attr::Secure),
            final(self)@ == set_add(old(self)@, Attr::Secure),
    {
        self.add_attr(Attr::Secure);
    }

    /// The style with `Attr::Secure` added.
    pub fn with_secure(self) -> (r: TermStyle)
        ensures
            r.slots() == slots_add(self.slots(), Attr::Secure),
            r@ == set_add(self@, Attr::Secure),
    {
        self.with_attr(Attr::Secure)
    }

    /// Removes `Attr::Secure` from the style.
    pub fn unset_secure(&mut self)
        ensures
            final(self).slots() == slots_unset_exact(old(self).slots(), Attr::Secure),
            final(self)@ == old(self)@.remove(Attr::Secure),
    {
        self.unset_exact_attr(Attr::Secure);
    }

    /// The style with `Attr::Secure` removed.
    pub fn without_secure(self) -> (r: TermStyle)
        ensures
            r.slots() == slots_unset_exact(self.slots(), Attr::Secure),
            r@ == self@.remove(Attr::Secure),
    {
        self.without_exact_attr(Attr::Secure)
    }

    /// The style that holds `Attr::Italic(arg)` alone.
    pub fn italic(arg: bool) -> (r: TermStyle)
        ensures
            r.slots() == empty_slots().update(0, Some(Attr::Italic(arg))),
            r@ == Set::<Attr>::empty().insert(Attr::Italic(arg)),
    {
        TermStyle::single(Attr::Italic(arg))
    }

    /// Whether the style holds `Attr::Italic` with any payload.
    pub fn has_italic(&self) -> (r: bool)
        ensures
            r == self.has_kind(AttrKind::Italic),
    {
        self.has_variant_attr(Attr::Italic(false))
    }

    /// Whether the style holds `Attr::Italic(arg)`.
    pub fn has_exact_italic(&self, arg: bool) -> (r: bool)
        ensures
            r == self@.contains(Attr::Italic(arg)),
    {
        self.has_exact_attr(Attr::Italic(arg))
    }

    /// Adds `Attr::Italic(arg)` to the style, in place of any `Attr::Italic`.
    pub fn add_italic(&mut self, arg: bool)
        ensures
            final(self).slots() == slots_add(old(self).slots(), Attr::Italic(arg)),
            final(self)@ == set_add(old(self)@, Attr::Italic(arg)),
    {
        self.add_attr(Attr::Italic(arg));
    }

    /// The style with `Attr::Italic(arg)` added, in place of any `Attr::Italic`.
    pub fn with_italic(self, arg: bool) -> (r: TermStyle)
        ensures
            r.slots() == slots_add(self.slots(), Attr::Italic(arg)),
            r@ == set_add(self@, Attr::Italic(arg)),
    {
        self.with_attr(Attr::Italic(arg))
    }

    /// Adds `Attr::Italic(arg)` to the style, unless it holds an `Attr::Italic`.
    pub fn or_italic(&mut self, arg: bool)
        ensures
            final(self).slots() == slots_or(old(self).slots(), Attr::Italic(arg)),
            final(self)@ == set_or(old(self)@, Attr::Italic(arg)),
    {
        self.or_attr(Attr::Italic(arg));
    }

    /// The style with `Attr::Italic(arg)` added, unless it held an `Attr::Italic`.
    pub fn with_ored_italic(self, arg: bool) -> (r: TermStyle)
        ensures
            r.slots() == slots_or(self.slots(), Attr::Italic(arg)),
            r@ == set_or(self@, Attr::Italic(arg)),
    {
        self.with_ored_attr(Attr::Italic(arg))
    }

    /// Removes `Attr::Italic` from the style, whatever its payload.
    pub fn unset_italic(&mut self)
        ensures
            final(self).slots() == slots_unset_variant(old(self).slots(), Attr::Italic(false)),
            final(self)@ == set_without_kind(old(self)@, AttrKind::Italic),
    {
        self.unset_variant_attr(Attr::Italic(false));
    }

    /// The style with `Attr::Italic` removed, whatever its payload.
    pub fn without_italic(self) -> (r: TermStyle)
        ensures
            r.slots() == slots_unset_variant(self.slots(), Attr::Italic(false)),
            r@ == set_without_kind(self@, AttrKind::Italic),
    {
        self.without_variant_attr(Attr::Italic(false))
    }

    /// Removes `Attr::Italic(arg)` from the style; an `Attr::Italic` with another payload stays.
    pub fn unset_exact_italic(&mut self, arg: bool)
        ensures
            final(self).slots() == slots_unset_exact(old(self).slots(), Attr::Italic(arg)),
            final(self)@ == old(self)@.remove(Attr::Italic(arg)),
    {
        self.unset_exact_attr(Attr::Italic(arg));
    }

    /// The style with `Attr::Italic(arg)` removed; an `Attr::Italic` with another payload stays.
    pub fn without_exact_italic(self, arg: bool) -> (r: TermStyle)
        ensures
            r.slots() == slots_unset_exact(self.slots(), Attr::Italic(arg)),
            r@ == self@.remove(Attr::Italic(arg)),
    {
        self.without_exact_attr(Attr::Italic(arg))
    }

    /// The style that holds `Attr::Underline(arg)` alone.
    pub fn underline(arg: bool) -> (r: TermStyle)
        ensures
            r.slots() == empty_slots().update(0, Some(Attr::Underline(arg))),
            r@ == Set::<Attr>::empty().insert(Attr::Underline(arg)),
    {
        TermStyle::single(Attr::Underline(arg))
    }

    /// Whether the style holds `Attr::Underline` with any payload.
    pub fn has_underline(&self) -> (r: bool)
        ensures
            r == self.has_kind(AttrKind::Underline),
    {
        self.has_variant_attr(Attr::Underline(false))
    }

    /// Whether the style holds `Attr::Underline(arg)`.
    pub fn has_exact_underline(&self, arg: bool) -> (r: bool)
        ensures
            r == self@.contains(Attr::Underline(arg)),
    {
        self.has_exact_attr(Attr::Underline(arg))
    }

    /// Adds `Attr::Underline(arg)` to the style, in place of any `Attr::Underline`.
    pub fn add_underline(&mut self, arg: bool)
        ensures
            final(self).slots() == slots_add(old(self).slots(), Attr::Underline(arg)),
            final(self)@ == set_add(old(self)@, Attr::Underline(arg)),
    {
        self.add_attr(Attr::Underline(arg));
    }

    /// The style with `Attr::Underline(arg)` added, in place of any `Attr::Underline`.
    pub fn with_underline(self, arg: bool) -> (r: TermStyle)
        ensures
            r.slots() == slots_add(self.slots(), Attr::Underline(arg)),
            r@ == set_add(self@, Attr::Underline(arg)),
    {
        self.with_attr(Attr::Underline(arg))
    }

    /// Adds `Attr::Underline(arg)` to the style, unless it holds an `Attr::Underline`.
    pub fn or_underline(&mut self, arg: bool)
        ensures
            final(self).slots() == slots_or(old(self).slots(), Attr::Underline(arg)),
            final(self)@ == set_or(old(self)@, Attr::Underline(arg)),
    {
        self.or_attr(Attr::Underline(arg));
    }

    /// The style with `Attr::Underline(arg)` added, unless it held an `Attr::Underline`.
    pub fn with_ored_underline(self, arg: bool) -> (r: TermStyle)
        ensures
            r.slots() == slots_or(self.slots(), Attr::Underline(arg)),
            r@ == set_or(self@, Attr::Underline(arg)),
    {
        self.with_ored_attr(Attr::Underline(arg))
    }

    /// Removes `Attr::Underline` from the style, whatever its payload.
    pub fn unset_underline(&mut self)
        ensures
            final(self).slots() == slots_unset_variant(old(self).slots(), Attr::Underline(false)),
            final(self)@ == set_without_kind(old(self)@, AttrKind::Underline),
    {
        self.unset_variant_attr(Attr::Underline(false));
    }

    /// The style with `Attr::Underline` removed, whatever its payload.
    pub fn without_underline(self) -> (r: TermStyle)
        ensures
            r.slots() == slots_unset_variant(self.slots(), Attr::Underline(false)),
            r@ == set_without_kind(self@, AttrKind::Underline),
    {
        self.without_variant_attr(Attr::Underline(false))
    }

    /// Removes `Attr::Underline(arg)` from the style; an `Attr::Underline` with another
    /// payload stays.
    pub fn unset_exact_underline(&mut self, arg: bool)
        ensures
            final(self).slots() == slots_unset_exact(old(self).slots(), Attr::Underline(arg)),
            final(self)@ == old(self)@.remove(Attr::Underline(arg)),
    {
        self.unset_exact_attr(Attr::Underline(arg));
    }

    /// The style with `Attr::Underline(arg)` removed; an `Attr::Underline` with another
    /// payload stays.
    pub fn without_exact_underline(self, arg: bool) -> (r: TermStyle)
        ensures
            r.slots() == slots_unset_exact(self.slots(), Attr::Underline(arg)),
            r@ == self@.remove(Attr::Underline(arg)),
    {
        self.without_exact_attr(Attr::Underline(arg))
    }

    /// The style that holds `Attr::Standout(arg)` alone.
    pub fn standout(arg: bool) -> (r: TermStyle)
        ensures
            r.slots() == empty_slots().update(0, Some(Attr::Standout(arg))),
            r@ == Set::<Attr>::empty().insert(Attr::Standout(arg)),
    {
        TermStyle::single(Attr::Standout(arg))
    }

    /// Whether the style holds `Attr::Standout` with any payload.
    pub fn has_standout(&self) -> (r: bool)
        ensures
            r == self.has_kind(AttrKind::Standout),
    {
        self.has_variant_attr(Attr::Standout(false))
    }

    /// Whether the style holds `Attr::Standout(arg)`.
    pub fn has_exact_standout(&self, arg: bool) -> (r: bool)
        ensures
            r == self@.contains(Attr::Standout(arg)),
    {
        self.has_exact_attr(Attr::Standout(arg))
    }

    /// Adds `Attr::Standout(arg)` to the style, in place of any `Attr::Standout`.
    pub fn add_standout(&mut self, arg: bool)
        ensures
            final(self).slots() == slots_add(old(self).slots(), Attr::Standout(arg)),
            final(self)@ == set_add(old(self)@, Attr::Standout(arg)),
    {
        self.add_attr(Attr::Standout(arg));
    }

    /// The style with `Attr::Standout(arg)` added, in place of any `Attr::Standout`.
    pub fn with_standout(self, arg: bool) -> (r: TermStyle)
        ensures
            r.slots() == slots_add(self.slots(), Attr::Standout(arg)),
            r@ == set_add(self@, Attr::Standout(arg)),
    {
        self.with_attr(Attr::Standout(arg))
    }

    /// Adds `Attr::Standout(arg)` to the style, unless it holds an `Attr::Standout`.
    pub fn or_standout(&mut self, arg: bool)
        ensures
            final(self).slots() == slots_or(old(self).slots(), Attr::Standout(arg)),
            final(self)@ == set_or(old(self)@, Attr::Standout(arg)),
    {
        self.or_attr(Attr::Standout(arg));
    }

    /// The style with `Attr::Standout(arg)` added, unless it held an `Attr::Standout`.
    pub fn with_ored_standout(self, arg: bool) -> (r: TermStyle)
        ensures
            r.slots() == slots_or(self.slots(), Attr::Standout(arg)),
            r@ == set_or(self@, Attr::Standout(arg)),
    {
        self.with_ored_attr(Attr::Standout(arg))
    }

    /// Removes `Attr::Standout` from the style, whatever its payload.
    pub fn unset_standout(&mut self)
        ensures
            final(self).slots() == slots_unset_variant(old(self).slots(), Attr::Standout(false)),
            final(self)@ == set_without_kind(old(self)@, AttrKind::Standout),
    {
        self.unset_variant_attr(Attr::Standout(false));
    }

    /// The style with `Attr::Standout` removed, whatever its payload.
    pub fn without_standout(self) -> (r: TermStyle)
        ensures
            r.slots() == slots_unset_variant(self.slots(), Attr::Standout(false)),
            r@ == set_without_kind(self@, AttrKind::Standout),
    {
        self.without_variant_attr(Attr::Standout(false))
    }

    /// Removes `Attr::Standout(arg)` from the style; an `Attr::Standout` with another
    /// payload stays.
    pub fn unset_exact_standout(&mut self, arg: bool)
        ensures
            final(self).slots() == slots_unset_exact(old(self).slots(), Attr::Standout(arg)),
            final(self)@ == old(self)@.remove(Attr::Standout(arg)),
    {
        self.unset_exact_attr(Attr::Standout(arg));
    }

    /// The style with `Attr::Standout(arg)` removed; an `Attr::Standout` with another
    /// payload stays.
    pub fn without_exact_standout(self, arg: bool) -> (r: TermStyle)
        ensures
            r.slots() == slots_unset_exact(self.slots(), Attr::Standout(arg)),
            r@ == self@.remove(Attr::Standout(arg)),
    {
        self.without_exact_attr(Attr::Standout(arg))
    }

    /// The style that holds `Attr::ForegroundColor(arg)` alone.
    pub fn fg(arg: Color) -> (r: TermStyle)
        ensures
            r.slots() == empty_slots().update(0, Some(Attr::ForegroundColor(arg))),
            r@ == Set::<Attr>::empty().insert(Attr::ForegroundColor(arg)),
    {
        TermStyle::single(Attr::ForegroundColor(arg))
    }

    /// Whether the style holds `Attr::ForegroundColor` with any payload.
    pub fn has_fg(&self) -> (r: bool)
        ensures
            r == self.has_kind(AttrKind::ForegroundColor),
    {
        self.has_variant_attr(Attr::ForegroundColor(0))
    }

    /// Whether the style holds `Attr::ForegroundColor(arg)`.
    pub fn has_exact_fg(&self, arg: Color) -> (r: bool)
        ensures
            r == self@.contains(Attr::ForegroundColor(arg)),
    {
        self.has_exact_attr(Attr::ForegroundColor(arg))
    }

    /// Adds `Attr::ForegroundColor(arg)` to the style, in place of any `Attr::ForegroundColor`.
    pub fn add_fg(&mut self, arg: Color)
        ensures
            final(self).slots() == slots_add(old(self).slots(), Attr::ForegroundColor(arg)),
            final(self)@ == set_add(old(self)@, Attr::ForegroundColor(arg)),
    {
        self.add_attr(Attr::ForegroundColor(arg));
    }

    /// The style with `Attr::ForegroundColor(arg)` added, in place of any `Attr::ForegroundColor`.
    pub fn with_fg(self, arg: Color) -> (r: TermStyle)
        ensures
            r.slots() == slots_add(self.slots(), Attr::ForegroundColor(arg)),
            r@ == set_add(self@, Attr::ForegroundColor(arg)),
    {
        self.with_attr(Attr::ForegroundColor(arg))
    }

    /// Adds `Attr::ForegroundColor(arg)` to the style, unless it holds an `Attr::ForegroundColor`.
    pub fn or_fg(&mut self, arg: Color)
        ensures
            final(self).slots() == slots_or(old(self).slots(), Attr::ForegroundColor(arg)),
            final(self)@ == set_or(old(self)@, Attr::ForegroundColor(arg)),
    {
        self.or_attr(Attr::ForegroundColor(arg));
    }

    /// The style with `Attr::ForegroundColor(arg)` added, unless it held an
    /// `Attr::ForegroundColor`.
    pub fn with_ored_fg(self, arg: Color) -> (r: TermStyle)
        ensures
            r.slots() == slots_or(self.slots(), Attr::ForegroundColor(arg)),
            r@ == set_or(self@, Attr::ForegroundColor(arg)),
    {
        self.with_ored_attr(Attr::ForegroundColor(arg))
    }

    /// Removes `Attr::ForegroundColor` from the style, whatever its payload.
    pub fn unset_fg(&mut self)
        ensures
            final(self).slots() == slots_unset_variant(old(self).slots(), Attr::ForegroundColor(0)),
            final(self)@ == set_without_kind(old(self)@, AttrKind::ForegroundColor),
    {
        self.unset_variant_attr(Attr::ForegroundColor(0));
    }

    /// The style with `Attr::ForegroundColor` removed, whatever its payload.
    pub fn without_fg(self) -> (r: TermStyle)
        ensures
            r.slots() == slots_unset_variant(self.slots(), Attr::ForegroundColor(0)),
            r@ == set_without_kind(self@, AttrKind::ForegroundColor),
    {
        self.without_variant_attr(Attr::ForegroundColor(0))
    }

    /// Removes `Attr::ForegroundColor(arg)` from the style; an `Attr::ForegroundColor` with
    /// another payload stays.
    pub fn unset_exact_fg(&mut self, arg: Color)
        ensures
            final(self).slots() == slots_unset_exact(old(self).slots(), Attr::ForegroundColor(arg)),
            final(self)@ == old(self)@.remove(Attr::ForegroundColor(arg)),
    {
        self.unset_exact_attr(Attr::ForegroundColor(arg));
    }

    /// The style with `Attr::ForegroundColor(arg)` removed; an `Attr::ForegroundColor` with
    /// another payload stays.
    pub fn without_exact_fg(self, arg: Color) -> (r: TermStyle)
        ensures
            r.slots() == slots_unset_exact(self.slots(), Attr::ForegroundColor(arg)),
            r@ == self@.remove(Attr::ForegroundColor(arg)),
    {
        self.without_exact_attr(Attr::ForegroundColor(arg))
    }

    /// The style that holds `Attr::BackgroundColor(arg)` alone.
    pub fn bg(arg: Color) -> (r: TermStyle)
        ensures
            r.slots() == empty_slots().update(0, Some(Attr::BackgroundColor(arg))),
            r@ == Set::<Attr>::empty().insert(Attr::BackgroundColor(arg)),
    {
        TermStyle::single(Attr::BackgroundColor(arg))
    }

    /// Whether the style holds `Attr::BackgroundColor` with any payload.
    pub fn has_bg(&self) -> (r: bool)
        ensures
            r == self.has_kind(AttrKind::BackgroundColor),
    {
        self.has_variant_attr(Attr::BackgroundColor(0))
    }

    /// Whether the style holds `Attr::BackgroundColor(arg)`.
    pub fn has_exact_bg(&self, arg: Color) -> (r: bool)
        ensures
            r == self@.contains(Attr::BackgroundColor(arg)),
    {
        self.has_exact_attr(Attr::BackgroundColor(arg))
    }

    /// Adds `Attr::BackgroundColor(arg)` to the style, in place of any `Attr::BackgroundColor`.
    pub fn add_bg(&mut self, arg: Color)
        ensures
            final(self).slots() == slots_add(old(self).slots(), Attr::BackgroundColor(arg)),
            final(self)@ == set_add(old(self)@, Attr::BackgroundColor(arg)),
    {
        self.add_attr(Attr::BackgroundColor(arg));
    }

    /// The style with `Attr::BackgroundColor(arg)` added, in place of any `Attr::BackgroundColor`.
    pub fn with_bg(self, arg: Color) -> (r: TermStyle)
        ensures
            r.slots() == slots_add(self.slots(), Attr::BackgroundColor(arg)),
            r@ == set_add(self@, Attr::BackgroundColor(arg)),
    {
        self.with_attr(Attr::BackgroundColor(arg))
    }

    /// Adds `Attr::BackgroundColor(arg)` to the style, unless it holds an `Attr::BackgroundColor`.
    pub fn or_bg(&mut self, arg: Color)
        ensures
            final(self).slots() == slots_or(old(self).slots(), Attr::BackgroundColor(arg)),
            final(self)@ == set_or(old(self)@, Attr::BackgroundColor(arg)),
    {
        self.or_attr(Attr::BackgroundColor(arg));
    }

    /// The style with `Attr::BackgroundColor(arg)` added, unless it held an
    /// `Attr::BackgroundColor`.
    pub fn with_ored_bg(self, arg: Color) -> (r: TermStyle)
        ensures
            r.slots() == slots_or(self.slots(), Attr::BackgroundColor(arg)),
            r@ == set_or(self@, Attr::BackgroundColor(arg)),
    {
        self.with_ored_attr(Attr::BackgroundColor(arg))
    }

    /// Removes `Attr::BackgroundColor` from the style, whatever its payload.
    pub fn unset_bg(&mut self)
        ensures
            final(self).slots() == slots_unset_variant(old(self).slots(), Attr::BackgroundColor(0)),
            final(self)@ == set_without_kind(old(self)@, AttrKind::BackgroundColor),
    {
        self.unset_variant_attr(Attr::BackgroundColor(0));
    }

    /// The style with `Attr::BackgroundColor` removed, whatever its payload.
    pub fn without_bg(self) -> (r: TermStyle)
        ensures
            r.slots() == slots_unset_variant(self.slots(), Attr::BackgroundColor(0)),
            r@ == set_without_kind(self@, AttrKind::BackgroundColor),
    {
        self.without_variant_attr(Attr::BackgroundColor(0))
    }

    /// Removes `Attr::BackgroundColor(arg)` from the style; an `Attr::BackgroundColor` with
    /// another payload stays.
    pub fn unset_exact_bg(&mut self, arg: Color)
        ensures
            final(self).slots() == slots_unset_exact(old(self).slots(), Attr::BackgroundColor(arg)),
            final(self)@ == old(self)@.remove(Attr::BackgroundColor(arg)),
    {
        self.unset_exact_attr(Attr::BackgroundColor(arg));
    }

    /// The style with `Attr::BackgroundColor(arg)` removed; an `Attr::BackgroundColor` with
    /// another payload stays.
    pub fn without_exact_bg(self, arg: Color) -> (r: TermStyle)
        ensures
            r.slots() == slots_unset_exact(self.slots(), Attr::BackgroundColor(arg)),
            r@ == self@.remove(Attr::BackgroundColor(arg)),
    {
        self.without_exact_attr(Attr::BackgroundColor(arg))
    }
}

} // verus!
