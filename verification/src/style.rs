//! Attribute sets: at most one attribute of each kind, held in a fixed number of slots.

use vstd::prelude::*;

pub mod compose;
pub mod kinds;
pub mod laws;
pub mod lemmas;
pub mod model;

use crate::attr::{Attr, AttrKind};
use crate::style::lemmas::{
    lemma_apply_all_merge, lemma_clear_slot, lemma_exact_slot, lemma_free_slot, lemma_have_kind,
    lemma_held_step, lemma_kind_slot, lemma_slots_add, lemma_slots_apply_all, lemma_slots_or,
    lemma_slots_unset_exact, lemma_slots_unset_variant, lemma_style_merge, lemma_update_kind,
};
use crate::style::model::{
    empty_slots, first_free, held, is_first_free, set_add, set_add_all, set_apply_all,
    set_has_kind, set_kinds, set_or, set_or_all, set_unset_kinds, set_without_kind, slot_matches,
    slots_add, slots_apply, slots_apply_all, slots_have_kind, slots_or, slots_set,
    slots_unset_exact, slots_unset_variant, slots_wf, StyleOp, SLOTS,
};

verus! {

/// A set of display attributes with at most one attribute of each kind.
#[derive(Clone, Copy, Debug)]
pub struct TermStyle {
    attrs: [Option<Attr>; 10],
}

impl View for TermStyle {
    type V = Set<Attr>;

    /// The attributes that the style holds.
    open spec fn view(&self) -> Set<Attr> {
        slots_set(self.slots())
    }
}

impl TermStyle {
    /// The slots of the style, in order.
    pub closed spec fn slots(self) -> Seq<Option<Attr>> {
        self.attrs@
    }

    /// Every style is well formed: it has `SLOTS` slots, and no two of them hold
    /// attributes of one kind.
    #[verifier::type_invariant]
    pub open spec fn wf(self) -> bool {
        slots_wf(self.slots())
    }

    /// Whether the style holds an attribute of kind `k`.
    pub open spec fn has_kind(self, k: AttrKind) -> bool {
        set_has_kind(self@, k)
    }

    /// The kinds of the attributes that the style holds.
    pub open spec fn kinds(self) -> Set<AttrKind> {
        set_kinds(self@)
    }

    /// The style whose slots are `s`, where there is one.
    pub closed spec fn from_slots(s: Seq<Option<Attr>>) -> TermStyle {
        choose|t: TermStyle| t.attrs@ == s
    }

    /// The empty style.
    pub open spec fn empty() -> TermStyle {
        TermStyle::from_slots(empty_slots())
    }

    /// The style after `op` was applied with each attribute that `other` holds, in the
    /// order of its slots.
    pub open spec fn merged(self, op: StyleOp, other: TermStyle) -> TermStyle {
        TermStyle::from_slots(slots_apply_all(self.slots(), op, held(other.slots())))
    }

    /// A style is known by its slots.
    pub proof fn lemma_from_slots(self)
        ensures
            TermStyle::from_slots(self.slots()) == self,
    {
        let t = TermStyle::from_slots(self.slots());
        assert(t.attrs@ == self.attrs@);
        assert(t.attrs =~= self.attrs);
    }

    /// There is a style for every sequence of `SLOTS` slots.
    pub proof fn lemma_slots(s: Seq<Option<Attr>>)
        requires
            s.len() == SLOTS,
        ensures
            TermStyle::from_slots(s).slots() == s,
    {
        let a0: [Option<Attr>; 10] = vstd::array::spec_array_fill_for_copy_type(None);
        let a1 = vstd::array::spec_array_update(a0, 0, s[0]);
        let a2 = vstd::array::spec_array_update(a1, 1, s[1]);
        let a3 = vstd::array::spec_array_update(a2, 2, s[2]);
        let a4 = vstd::array::spec_array_update(a3, 3, s[3]);
        let a5 = vstd::array::spec_array_update(a4, 4, s[4]);
        let a6 = vstd::array::spec_array_update(a5, 5, s[5]);
        let a7 = vstd::array::spec_array_update(a6, 6, s[6]);
        let a8 = vstd::array::spec_array_update(a7, 7, s[7]);
        let a9 = vstd::array::spec_array_update(a8, 8, s[8]);
        let a10 = vstd::array::spec_array_update(a9, 9, s[9]);
        let witness = TermStyle { attrs: a10 };
        assert(witness.attrs@ =~= s);
    }

    /// The empty style has the empty slots, and holds nothing.
    pub proof fn lemma_empty()
        ensures
            TermStyle::empty().slots() == empty_slots(),
            TermStyle::empty()@ == Set::<Attr>::empty(),
            TermStyle::empty().wf(),
    {
        TermStyle::lemma_slots(empty_slots());
        assert(TermStyle::empty()@ =~= Set::<Attr>::empty());
    }
}

impl Default for TermStyle {
    /// The empty style: every slot is free.
    fn default() -> (r: Self)
        ensures
            r == TermStyle::empty(),
            r.slots() == empty_slots(),
            r@ == Set::<Attr>::empty(),
    {
        let r = TermStyle { attrs: [None; 10] };
        proof {
            assert(r.slots() =~= empty_slots());
            assert(r@ =~= Set::<Attr>::empty());
            r.lemma_from_slots();
        }
        r
    }
}

impl TermStyle {
    /// The first slot that matches `attr`, exactly or by kind alone.
    fn attr_match_pos(&self, attr: Attr, exact: bool) -> (r: Option<usize>)
        ensures
            match r {
                Some(p) => {
                    &&& p < SLOTS
                    &&& slot_matches(self.slots()[p as int], attr, exact)
                    &&& forall|j: int|
                        0 <= j < p ==> !slot_matches(#[trigger] self.slots()[j], attr, exact)
                },
                None => forall|j: int|
                    0 <= j < SLOTS ==> !slot_matches(#[trigger] self.slots()[j], attr, exact),
            },
    {
        let mut i: usize = 0;
        while i < 10
            invariant
                i <= 10,
                forall|j: int|
                    0 <= j < i ==> !slot_matches(#[trigger] self.slots()[j], attr, exact),
            decreases 10 - i,
        {
            let found = match self.attrs[i] {
                Some(held) => if exact {
                    held == attr
                } else {
                    held.same_kind(attr)
                },
                None => false,
            };
            if found {
                return Some(i);
            }
            i += 1;
        }
        None
    }

    /// Puts `attr` into the first free slot.
    fn append_attr(&mut self, attr: Attr)
        requires
            !slots_have_kind(old(self).slots(), attr.kind()),
        ensures
            final(self).slots() == old(self).slots().update(
                first_free(old(self).slots()),
                Some(attr),
            ),
    {
        proof {
            use_type_invariant(&*self);
            lemma_free_slot(self.slots(), attr.kind());
            lemma_update_kind(self.slots(), first_free(self.slots()), attr);
        }
        let mut i: usize = 0;
        while i < 10
            invariant
                i <= 10,
                self.slots() == old(self).slots(),
                self.slots().len() == 10,
                is_first_free(self.slots(), first_free(self.slots())),
                slots_wf(self.slots().update(first_free(self.slots()), Some(attr))),
                forall|j: int| 0 <= j < i ==> (#[trigger] self.slots()[j]) is Some,
            decreases 10 - i,
        {
            if self.attrs[i].is_none() {
                assert(is_first_free(self.slots(), i as int));
                assert(i == first_free(self.slots()));
                self.attrs[i] = Some(attr);
                return ;
            }
            i += 1;
        }
        // Every slot was found taken, and yet one is free: this point is not reached.
        assert(self.slots()[first_free(self.slots())] is Some);
    }

    /// Adds `attr` where its kind is not held; where it is, overwrites it if `replace`
    /// is set and leaves it otherwise.
    fn add_attr_with(&mut self, attr: Attr, replace: bool)
        ensures
            final(self).slots() == if replace {
                slots_add(old(self).slots(), attr)
            } else {
                slots_or(old(self).slots(), attr)
            },
    {
        proof {
            use_type_invariant(&*self);
        }
        match self.attr_match_pos(attr, false) {
            None => {
                self.append_attr(attr);
            },
            Some(pos) => {
                proof {
                    lemma_kind_slot(self.slots(), pos as int);
                    lemma_update_kind(self.slots(), pos as int, attr);
                }
                if replace {
                    self.attrs[pos] = Some(attr);
                }
            },
        }
    }

    /// Clears the slot that matches `attr`, exactly or by kind alone, if there is one.
    fn remove_attr(&mut self, attr: Attr, exact: bool)
        ensures
            final(self).slots() == if exact {
                slots_unset_exact(old(self).slots(), attr)
            } else {
                slots_unset_variant(old(self).slots(), attr)
            },
    {
        proof {
            use_type_invariant(&*self);
        }
        if let Some(pos) = self.attr_match_pos(attr, exact) {
            proof {
                lemma_kind_slot(self.slots(), pos as int);
                lemma_clear_slot(self.slots(), pos as int);
                if exact {
                    lemma_exact_slot(self.slots(), attr, pos as int);
                }
            }
            self.attrs[pos] = None;
        }
    }

    /// Applies `op` with `attr`.
    fn apply(&mut self, op: StyleOp, attr: Attr)
        ensures
            final(self).slots() == slots_apply(old(self).slots(), op, attr),
    {
        match op {
            StyleOp::Add => self.add_attr_with(attr, true),
            StyleOp::Or => self.add_attr_with(attr, false),
            StyleOp::UnsetExact => self.remove_attr(attr, true),
            StyleOp::UnsetVariant => self.remove_attr(attr, false),
        }
    }

    /// Applies `op` with each attribute of the list, in its order.
    fn apply_attrs(&mut self, op: StyleOp, attrs: &[Attr])
        ensures
            final(self).slots() == slots_apply_all(old(self).slots(), op, attrs@),
            final(self)@ == set_apply_all(old(self)@, op, attrs@),
    {
        proof {
            use_type_invariant(&*self);
            lemma_slots_apply_all(self.slots(), op, attrs@);
        }
        let mut i: usize = 0;
        while i < attrs.len()
            invariant
                i <= attrs.len(),
                self.slots() == slots_apply_all(old(self).slots(), op, attrs@.take(i as int)),
            decreases attrs.len() - i,
        {
            self.apply(op, attrs[i]);
            proof {
                assert(attrs@.take(i + 1).drop_last() =~= attrs@.take(i as int));
            }
            i += 1;
        }
        proof {
            assert(attrs@.take(i as int) =~= attrs@);
        }
    }

    /// Applies `op` with each attribute that `other` holds, in the order of its slots.
    fn apply_style(&mut self, op: StyleOp, other: &TermStyle)
        ensures
            final(self).slots() == slots_apply_all(old(self).slots(), op, held(other.slots())),
            final(self)@ == set_apply_all(old(self)@, op, held(other.slots())),
    {
        proof {
            use_type_invariant(&*self);
            use_type_invariant(other);
            lemma_slots_apply_all(self.slots(), op, held(other.slots()));
        }
        let mut i: usize = 0;
        while i < 10
            invariant
                i <= 10,
                other.slots().len() == 10,
                self.slots() == slots_apply_all(
                    old(self).slots(),
                    op,
                    held(other.slots().take(i as int)),
                ),
            decreases 10 - i,
        {
            proof {
                lemma_held_step(other.slots(), i as int);
            }
            if let Some(attr) = other.attrs[i] {
                self.apply(op, attr);
                proof {
                    let h = held(other.slots().take(i as int));
                    assert(h.push(attr).drop_last() =~= h);
                }
            }
            i += 1;
        }
        proof {
            assert(other.slots().take(i as int) =~= other.slots());
        }
    }
}

impl TermStyle {
    /// Whether the style holds exactly `attr`: its kind with its payload.
    pub fn has_exact_attr(&self, attr: Attr) -> (r: bool)
        ensures
            r == self@.contains(attr),
    {
        self.attr_match_pos(attr, true).is_some()
    }

    /// Whether the style holds an attribute of the kind of `attr`, whatever its payload.
    pub fn has_variant_attr(&self, attr: Attr) -> (r: bool)
        ensures
            r == self.has_kind(attr.kind()),
    {
        proof {
            lemma_have_kind(self.slots(), attr.kind());
        }
        self.attr_match_pos(attr, false).is_some()
    }

    /// Removes exactly `attr`; an attribute of its kind with another payload stays.
    pub fn unset_exact_attr(&mut self, attr: Attr)
        ensures
            final(self).slots() == slots_unset_exact(old(self).slots(), attr),
            final(self)@ == old(self)@.remove(attr),
    {
        proof {
            use_type_invariant(&*self);
            lemma_slots_unset_exact(self.slots(), attr);
        }
        self.remove_attr(attr, true);
    }

    /// Removes the attribute of the kind of `attr`, whatever its payload.
    pub fn unset_variant_attr(&mut self, attr: Attr)
        ensures
            final(self).slots() == slots_unset_variant(old(self).slots(), attr),
            final(self)@ == set_without_kind(old(self)@, attr.kind()),
    {
        proof {
            use_type_invariant(&*self);
            lemma_slots_unset_variant(self.slots(), attr);
        }
        self.remove_attr(attr, false);
    }

    /// Adds `attr` unless its kind is already held: the first value of a kind wins.
    pub fn or_attr(&mut self, attr: Attr)
        ensures
            final(self).slots() == slots_or(old(self).slots(), attr),
            final(self)@ == set_or(old(self)@, attr),
    {
        proof {
            use_type_invariant(&*self);
            lemma_slots_or(self.slots(), attr);
        }
        self.add_attr_with(attr, false);
    }

    /// Adds `attr`, in place of any attribute of its kind: the last value of a kind wins.
    pub fn add_attr(&mut self, attr: Attr)
        ensures
            final(self).slots() == slots_add(old(self).slots(), attr),
            final(self)@ == set_add(old(self)@, attr),
    {
        proof {
            use_type_invariant(&*self);
            lemma_slots_add(self.slots(), attr);
        }
        self.add_attr_with(attr, true);
    }

    /// Clears every slot.
    pub fn reset(&mut self)
        ensures
            *final(self) == TermStyle::empty(),
            final(self).slots() == empty_slots(),
            final(self)@ == Set::<Attr>::empty(),
    {
        *self = TermStyle::default();
    }

    /// The attributes that the style holds, in the order of its slots.
    pub fn attrs(&self) -> (r: Vec<Attr>)
        ensures
            r@ == held(self.slots()),
    {
        let mut list: Vec<Attr> = Vec::new();
        let mut i: usize = 0;
        while i < 10
            invariant
                i <= 10,
                self.slots().len() == 10,
                list@ == held(self.slots().take(i as int)),
            decreases 10 - i,
        {
            proof {
                lemma_held_step(self.slots(), i as int);
            }
            if let Some(attr) = self.attrs[i] {
                list.push(attr);
            }
            i += 1;
        }
        proof {
            assert(self.slots().take(i as int) =~= self.slots());
        }
        list
    }
}

impl TermStyle {
    /// Whether the style holds each attribute of `other` exactly.
    pub fn has_exact_style(&self, other: TermStyle) -> (r: bool)
        ensures
            r == other@.subset_of(self@),
    {
        let mut i: usize = 0;
        while i < 10
            invariant
                i <= 10,
                forall|j: int, a: Attr|
                    0 <= j < i && #[trigger] other.slots()[j] == Some(a)
                        ==> #[trigger] self@.contains(a),
            decreases 10 - i,
        {
            if let Some(attr) = other.attrs[i] {
                if !self.has_exact_attr(attr) {
                    assert(other.slots()[i as int] == Some(attr));
                    assert(other@.contains(attr));
                    return false;
                }
            }
            i += 1;
        }
        proof {
            assert forall|a: Attr| other@.contains(a) implies self@.contains(a) by {
                let j = choose|j: int| 0 <= j < other.slots().len() && other.slots()[j] == Some(a);
                assert(other.slots()[j] == Some(a));
            }
        }
        true
    }

    /// Whether the style holds the kind of each attribute of `other`.
    pub fn has_variant_style(&self, other: TermStyle) -> (r: bool)
        ensures
            r == other.kinds().subset_of(self.kinds()),
    {
        let mut i: usize = 0;
        while i < 10
            invariant
                i <= 10,
                forall|j: int|
                    0 <= j < i && (#[trigger] other.slots()[j]) is Some ==> self.has_kind(
                        other.slots()[j]->0.kind(),
                    ),
            decreases 10 - i,
        {
            if let Some(attr) = other.attrs[i] {
                if !self.has_variant_attr(attr) {
                    proof {
                        assert(other.slots()[i as int] == Some(attr));
                        assert(other@.contains(attr));
                        assert(other.kinds().contains(attr.kind()));
                        assert(!self.kinds().contains(attr.kind()));
                    }
                    return false;
                }
            }
            i += 1;
        }
        proof {
            assert forall|k: AttrKind| other.kinds().contains(k) implies self.kinds().contains(
                k,
            ) by {
                let a = choose|a: Attr| other@.contains(a) && (#[trigger] a.kind()) == k;
                let j = choose|j: int| 0 <= j < other.slots().len() && other.slots()[j] == Some(a);
                assert(other.slots()[j] is Some);
            }
        }
        true
    }

    /// Removes exactly the attributes that `other` holds; an attribute of the same kind
    /// with another payload stays.
    pub fn unset_exact_style(&mut self, other: TermStyle)
        ensures
            *final(self) == old(self).merged(StyleOp::UnsetExact, other),
            final(self).slots() == slots_apply_all(
                old(self).slots(),
                StyleOp::UnsetExact,
                held(other.slots()),
            ),
            final(self)@ == old(self)@.difference(other@),
    {
        proof {
            use_type_invariant(&other);
            lemma_style_merge(self@, StyleOp::UnsetExact, other.slots());
        }
        self.apply_style(StyleOp::UnsetExact, &other);
        proof {
            self.lemma_from_slots();
        }
    }

    /// Removes the attributes of the kinds that `other` holds.
    pub fn unset_variant_style(&mut self, other: TermStyle)
        ensures
            *final(self) == old(self).merged(StyleOp::UnsetVariant, other),
            final(self).slots() == slots_apply_all(
                old(self).slots(),
                StyleOp::UnsetVariant,
                held(other.slots()),
            ),
            final(self)@ == set_unset_kinds(old(self)@, other@),
    {
        proof {
            use_type_invariant(&other);
            lemma_style_merge(self@, StyleOp::UnsetVariant, other.slots());
        }
        self.apply_style(StyleOp::UnsetVariant, &other);
        proof {
            self.lemma_from_slots();
        }
    }

    /// Or-merges `other` into the style: on a conflict of kinds the style's own
    /// attribute stays.
    pub fn or_style(&mut self, other: TermStyle)
        ensures
            *final(self) == old(self).merged(StyleOp::Or, other),
            final(self).slots() == slots_apply_all(
                old(self).slots(),
                StyleOp::Or,
                held(other.slots()),
            ),
            final(self)@ == set_or_all(old(self)@, other@),
    {
        proof {
            use_type_invariant(&other);
            lemma_style_merge(self@, StyleOp::Or, other.slots());
        }
        self.apply_style(StyleOp::Or, &other);
        proof {
            self.lemma_from_slots();
        }
    }

    /// Add-merges `other` into the style: on a conflict of kinds the attribute of
    /// `other` wins.
    pub fn add_style(&mut self, other: TermStyle)
        ensures
            *final(self) == old(self).merged(StyleOp::Add, other),
            final(self).slots() == slots_apply_all(
                old(self).slots(),
                StyleOp::Add,
                held(other.slots()),
            ),
            final(self)@ == set_add_all(old(self)@, other@),
    {
        proof {
            use_type_invariant(&other);
            lemma_style_merge(self@, StyleOp::Add, other.slots());
        }
        self.apply_style(StyleOp::Add, &other);
        proof {
            self.lemma_from_slots();
        }
    }

    /// Adds each attribute of the list, in its order: a later one of a kind wins.
    pub fn add_attrs(&mut self, attrs: &[Attr])
        ensures
            final(self).slots() == slots_apply_all(old(self).slots(), StyleOp::Add, attrs@),
            final(self)@ == set_apply_all(old(self)@, StyleOp::Add, attrs@),
    {
        self.apply_attrs(StyleOp::Add, attrs);
    }

    /// Or-s in each attribute of the list, in its order: the first one of a kind wins,
    /// unless the style held the kind before.
    pub fn or_attrs(&mut self, attrs: &[Attr])
        ensures
            final(self).slots() == slots_apply_all(old(self).slots(), StyleOp::Or, attrs@),
            final(self)@ == set_apply_all(old(self)@, StyleOp::Or, attrs@),
    {
        self.apply_attrs(StyleOp::Or, attrs);
    }

    /// Removes exactly the attributes of the list.
    pub fn unset_exact_attrs(&mut self, attrs: &[Attr])
        ensures
            final(self).slots() == slots_apply_all(old(self).slots(), StyleOp::UnsetExact, attrs@),
            final(self)@ == old(self)@.difference(attrs@.to_set()),
    {
        proof {
            lemma_apply_all_merge(self@, StyleOp::UnsetExact, attrs@);
        }
        self.apply_attrs(StyleOp::UnsetExact, attrs);
    }

    /// Removes the kinds of the attributes of the list.
    pub fn unset_variant_attrs(&mut self, attrs: &[Attr])
        ensures
            final(self).slots() == slots_apply_all(
                old(self).slots(),
                StyleOp::UnsetVariant,
                attrs@,
            ),
            final(self)@ == set_unset_kinds(old(self)@, attrs@.to_set()),
    {
        proof {
            lemma_apply_all_merge(self@, StyleOp::UnsetVariant, attrs@);
        }
        self.apply_attrs(StyleOp::UnsetVariant, attrs);
    }

    /// Whether both styles hold the same attributes, whatever the order in which they
    /// were added.
    pub fn eq_style(&self, other: TermStyle) -> (r: bool)
        ensures
            r == (self@ == other@),
    {
        let r = self.has_exact_style(other) && other.has_exact_style(*self);
        proof {
            if r {
                assert(self@ =~= other@);
            }
        }
        r
    }

    /// Whether both styles hold the same kinds of attributes, whatever the payloads.
    pub fn eq_variant_style(&self, other: TermStyle) -> (r: bool)
        ensures
            r == (self.kinds() == other.kinds()),
    {
        let r = self.has_variant_style(other) && other.has_variant_style(*self);
        proof {
            if r {
                assert(self.kinds() =~= other.kinds());
            }
        }
        r
    }
}

impl PartialEq for TermStyle {
    /// Styles are equal when they hold the same attributes: see `eq_style`.
    fn eq(&self, other: &Self) -> (r: bool) {
        self.eq_style(*other)
    }
}

impl vstd::std_specs::cmp::PartialEqSpecImpl for TermStyle {
    open spec fn obeys_eq_spec() -> bool {
        true
    }

    open spec fn eq_spec(&self, other: &Self) -> bool {
        self@ == other@
    }
}

impl<const N: usize> From<[Attr; N]> for TermStyle {
    /// The style made by adding each attribute of the array, in its order.
    fn from(attrs: [Attr; N]) -> (r: TermStyle)
        ensures
            r.slots() == slots_apply_all(empty_slots(), StyleOp::Add, attrs@),
            r@ == set_apply_all(Set::<Attr>::empty(), StyleOp::Add, attrs@),
    {
        let mut style = TermStyle::default();
        style.add_attrs(attrs.as_slice());
        proof {
            style.lemma_from_slots();
        }
        style
    }
}

impl<const N: usize> vstd::std_specs::convert::FromSpecImpl<[Attr; N]> for TermStyle {
    open spec fn obeys_from_spec() -> bool {
        true
    }

    open spec fn from_spec(attrs: [Attr; N]) -> TermStyle {
        TermStyle::from_slots(slots_apply_all(empty_slots(), StyleOp::Add, attrs@))
    }
}

impl<'a> From<&'a [Attr]> for TermStyle {
    /// The style made by adding each attribute of the list, in its order.
    fn from(attrs: &'a [Attr]) -> (r: TermStyle)
        ensures
            r.slots() == slots_apply_all(empty_slots(), StyleOp::Add, attrs@),
            r@ == set_apply_all(Set::<Attr>::empty(), StyleOp::Add, attrs@),
    {
        let mut style = TermStyle::default();
        style.add_attrs(attrs);
        proof {
            style.lemma_from_slots();
        }
        style
    }
}

impl<'a> vstd::std_specs::convert::FromSpecImpl<&'a [Attr]> for TermStyle {
    open spec fn obeys_from_spec() -> bool {
        true
    }

    open spec fn from_spec(attrs: &'a [Attr]) -> TermStyle {
        TermStyle::from_slots(slots_apply_all(empty_slots(), StyleOp::Add, attrs@))
    }
}

} // verus!
