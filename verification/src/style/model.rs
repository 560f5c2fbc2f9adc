//! The model of a style: its slots as a sequence, its attributes as a set, and what each
//! operation does to both.

use vstd::prelude::*;

use crate::attr::{Attr, AttrKind};

verus! {

/// The number of slots of a style: one for each attribute kind.
pub const SLOTS: usize = 10;

/// Whether `slot` holds an attribute that matches `attr`: exactly, or by kind alone.
pub open spec fn slot_matches(slot: Option<Attr>, attr: Attr, exact: bool) -> bool {
    match slot {
        Some(held) => if exact {
            held == attr
        } else {
            held.kind() == attr.kind()
        },
        None => false,
    }
}

/// Whether some slot of `s` holds an attribute of kind `k`.
pub open spec fn slots_have_kind(s: Seq<Option<Attr>>, k: AttrKind) -> bool {
    exists|i: int| 0 <= i < s.len() && (#[trigger] s[i]) is Some && s[i]->0.kind() == k
}

/// A slot of `s` that holds an attribute of kind `k`; the only one in a well-formed style.
pub open spec fn kind_slot(s: Seq<Option<Attr>>, k: AttrKind) -> int {
    choose|i: int| 0 <= i < s.len() && (#[trigger] s[i]) is Some && s[i]->0.kind() == k
}

/// Whether `i` is the first free slot of `s`.
pub open spec fn is_first_free(s: Seq<Option<Attr>>, i: int) -> bool {
    &&& 0 <= i < s.len()
    &&& s[i] is None
    &&& forall|j: int| 0 <= j < i ==> (#[trigger] s[j]) is Some
}

/// The first free slot of `s`, where it has one.
pub open spec fn first_free(s: Seq<Option<Attr>>) -> int {
    choose|i: int| is_first_free(s, i)
}

/// The slots of the empty style: each of them free.
pub open spec fn empty_slots() -> Seq<Option<Attr>> {
    Seq::new(SLOTS as nat, |i: int| None)
}

/// The slots of a style are well formed when there are `SLOTS` of them and no two
/// occupied slots hold attributes of one kind.
pub open spec fn slots_wf(s: Seq<Option<Attr>>) -> bool {
    &&& s.len() == SLOTS
    &&& kinds_unique(s)
}

/// Whether no two occupied slots of `s` hold attributes of one kind.
pub open spec fn kinds_unique(s: Seq<Option<Attr>>) -> bool {
    forall|i: int, j: int|
        0 <= i < j < s.len() && (#[trigger] s[i]) is Some && (#[trigger] s[j]) is Some
            ==> s[i]->0.kind() != s[j]->0.kind()
}

/// Whether no two attributes of the list are of one kind.
pub open spec fn kinds_distinct(attrs: Seq<Attr>) -> bool {
    forall|i: int, j: int|
        0 <= i < j < attrs.len() ==> (#[trigger] attrs[i]).kind() != (#[trigger] attrs[j]).kind()
}

/// The attributes that the slots `s` hold, as a set.
pub open spec fn slots_set(s: Seq<Option<Attr>>) -> Set<Attr> {
    Set::new(|a: Attr| s.contains(Some(a)))
}

/// Whether the set `s` holds an attribute of kind `k`.
pub open spec fn set_has_kind(s: Set<Attr>, k: AttrKind) -> bool {
    exists|a: Attr| s.contains(a) && (#[trigger] a.kind()) == k
}

/// The set `s` without its attributes of kind `k`.
pub open spec fn set_without_kind(s: Set<Attr>, k: AttrKind) -> Set<Attr> {
    s.filter(|a: Attr| a.kind() != k)
}

/// The set `s` after `attr` was added: `attr` takes the place of any attribute of its kind.
pub open spec fn set_add(s: Set<Attr>, attr: Attr) -> Set<Attr> {
    set_without_kind(s, attr.kind()).insert(attr)
}

/// The set `s` after `attr` was or-ed in: `attr` enters only where its kind is not yet held.
pub open spec fn set_or(s: Set<Attr>, attr: Attr) -> Set<Attr> {
    if set_has_kind(s, attr.kind()) {
        s
    } else {
        s.insert(attr)
    }
}

/// The set `s` without the attributes whose kind `o` holds.
pub open spec fn set_unset_kinds(s: Set<Attr>, o: Set<Attr>) -> Set<Attr> {
    s.filter(|a: Attr| !set_has_kind(o, a.kind()))
}

/// The add-merge of `o` into `s`: all of `o`, and of `s` what `o` has no kind for.
pub open spec fn set_add_all(s: Set<Attr>, o: Set<Attr>) -> Set<Attr> {
    set_unset_kinds(s, o).union(o)
}

/// The or-merge of `o` into `s`: all of `s`, and of `o` what `s` has no kind for.
pub open spec fn set_or_all(s: Set<Attr>, o: Set<Attr>) -> Set<Attr> {
    s.union(set_unset_kinds(o, s))
}

/// The kinds of the attributes in `s`.
pub open spec fn set_kinds(s: Set<Attr>) -> Set<AttrKind> {
    Set::new(|k: AttrKind| set_has_kind(s, k))
}

/// The slots `s` after `attr` was added: the slot of its kind is overwritten, or else the
/// first free slot is taken.
pub open spec fn slots_add(s: Seq<Option<Attr>>, attr: Attr) -> Seq<Option<Attr>> {
    if slots_have_kind(s, attr.kind()) {
        s.update(kind_slot(s, attr.kind()), Some(attr))
    } else {
        s.update(first_free(s), Some(attr))
    }
}

/// The slots `s` after `attr` was or-ed in: unchanged where its kind is held, or else the
/// first free slot is taken.
pub open spec fn slots_or(s: Seq<Option<Attr>>, attr: Attr) -> Seq<Option<Attr>> {
    if slots_have_kind(s, attr.kind()) {
        s
    } else {
        s.update(first_free(s), Some(attr))
    }
}

/// The slots `s` after exactly `attr` was unset: its slot is cleared, if there is one.
pub open spec fn slots_unset_exact(s: Seq<Option<Attr>>, attr: Attr) -> Seq<Option<Attr>> {
    if s.contains(Some(attr)) {
        s.update(s.index_of(Some(attr)), None)
    } else {
        s
    }
}

/// The slots `s` after the kind of `attr` was unset: its slot is cleared, if there is one.
pub open spec fn slots_unset_variant(s: Seq<Option<Attr>>, attr: Attr) -> Seq<Option<Attr>> {
    if slots_have_kind(s, attr.kind()) {
        s.update(kind_slot(s, attr.kind()), None)
    } else {
        s
    }
}

/// The four ways in which an attribute changes a style.
#[derive(Clone, Copy, Debug, PartialEq, Eq, Structural)]
pub enum StyleOp {
    /// Add, in place of an attribute of the same kind.
    Add,
    /// Add, unless the kind is held.
    Or,
    /// Remove the attribute itself.
    UnsetExact,
    /// Remove the attribute's kind.
    UnsetVariant,
}

/// The slots `s` after `op` was applied with `attr`.
pub open spec fn slots_apply(s: Seq<Option<Attr>>, op: StyleOp, attr: Attr) -> Seq<Option<Attr>> {
    match op {
        StyleOp::Add => slots_add(s, attr),
        StyleOp::Or => slots_or(s, attr),
        StyleOp::UnsetExact => slots_unset_exact(s, attr),
        StyleOp::UnsetVariant => slots_unset_variant(s, attr),
    }
}

/// The set `s` after `op` was applied with `attr`.
pub open spec fn set_apply(s: Set<Attr>, op: StyleOp, attr: Attr) -> Set<Attr> {
    match op {
        StyleOp::Add => set_add(s, attr),
        StyleOp::Or => set_or(s, attr),
        StyleOp::UnsetExact => s.remove(attr),
        StyleOp::UnsetVariant => set_without_kind(s, attr.kind()),
    }
}

/// The set `s` after `op` was applied with a whole set `o` of attributes.
pub open spec fn set_merge(s: Set<Attr>, op: StyleOp, o: Set<Attr>) -> Set<Attr> {
    match op {
        StyleOp::Add => set_add_all(s, o),
        StyleOp::Or => set_or_all(s, o),
        StyleOp::UnsetExact => s.difference(o),
        StyleOp::UnsetVariant => set_unset_kinds(s, o),
    }
}

/// The slots `s` after `op` was applied with each of `attrs`, from the first to the last.
pub open spec fn slots_apply_all(s: Seq<Option<Attr>>, op: StyleOp, attrs: Seq<Attr>) -> Seq<
    Option<Attr>,
>
    decreases attrs.len(),
{
    if attrs.len() == 0 {
        s
    } else {
        slots_apply(slots_apply_all(s, op, attrs.drop_last()), op, attrs.last())
    }
}

/// The set `s` after `op` was applied with each of `attrs`, from the first to the last.
pub open spec fn set_apply_all(s: Set<Attr>, op: StyleOp, attrs: Seq<Attr>) -> Set<Attr>
    decreases attrs.len(),
{
    if attrs.len() == 0 {
        s
    } else {
        set_apply(set_apply_all(s, op, attrs.drop_last()), op, attrs.last())
    }
}

/// The attributes that the slots `s` hold, in the order of the slots.
pub open spec fn held(s: Seq<Option<Attr>>) -> Seq<Attr>
    decreases s.len(),
{
    if s.len() == 0 {
        Seq::empty()
    } else {
        match s.last() {
            Some(a) => held(s.drop_last()).push(a),
            None => held(s.drop_last()),
        }
    }
}

} // verus!
