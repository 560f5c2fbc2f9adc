//! Laws of attribute sets: what adding and or-ing do to the value of a kind, and that
//! the order of additions does not show in the set.

use vstd::prelude::*;
use vstd::std_specs::cmp::PartialEqSpec;

use crate::attr::Attr;
use crate::style::lemmas::{lemma_slots_apply_all, lemma_style_merge};
use crate::style::model::{
    held, set_add, set_has_kind, set_merge, set_or, slots_apply_all, StyleOp,
};
use crate::style::TermStyle;

verus! {

/// After `added` was added, the set holds it, and holds no other attribute of its kind:
/// it does not hold `other`, and it holds the kind of `other`.
pub proof fn law_add_replaces(s: Set<Attr>, added: Attr, other: Attr)
    requires
        added.kind() == other.kind(),
        added != other,
    ensures
        set_add(s, added).contains(added),
        !set_add(s, added).contains(other),
        set_has_kind(set_add(s, added), other.kind()),
{
}

/// Or-ing twice with attributes of one kind: the second changes nothing.
pub proof fn law_or_keeps_first(s: Set<Attr>, first: Attr, second: Attr)
    requires
        first.kind() == second.kind(),
    ensures
        set_or(set_or(s, first), second) == set_or(s, first),
{
    assert(set_has_kind(set_or(s, first), first.kind())) by {
        if set_has_kind(s, first.kind()) {
        } else {
            assert(set_or(s, first).contains(first));
        }
    }
}

/// Or-ing twice into a set that has no attribute of the kind: the first one is held
/// afterwards, the second is not.
pub proof fn law_or_first_wins(s: Set<Attr>, first: Attr, second: Attr)
    requires
        first.kind() == second.kind(),
        first != second,
        !set_has_kind(s, first.kind()),
    ensures
        set_or(set_or(s, first), second).contains(first),
        !set_or(set_or(s, first), second).contains(second),
{
    law_or_keeps_first(s, first, second);
    if s.contains(second) {
        assert(set_has_kind(s, second.kind()));
    }
}

/// Adding twice with attributes of one kind: the result is that of the second addition
/// alone, so the second one is held afterwards and the first is not.
pub proof fn law_add_last_wins(s: Set<Attr>, first: Attr, second: Attr)
    requires
        first.kind() == second.kind(),
    ensures
        set_add(set_add(s, first), second) == set_add(s, second),
        set_add(set_add(s, first), second).contains(second),
        first != second ==> !set_add(set_add(s, first), second).contains(first),
{
    assert(set_add(set_add(s, first), second) =~= set_add(s, second));
}

/// Adding two attributes of different kinds gives the same set in either order.
pub proof fn law_add_commutes(s: Set<Attr>, a: Attr, b: Attr)
    requires
        a.kind() != b.kind(),
    ensures
        set_add(set_add(s, a), b) == set_add(set_add(s, b), a),
{
    assert(set_add(set_add(s, a), b) =~= set_add(set_add(s, b), a));
}

/// Or-ing two attributes of different kinds gives the same set in either order.
pub proof fn law_or_commutes(s: Set<Attr>, a: Attr, b: Attr)
    requires
        a.kind() != b.kind(),
    ensures
        set_or(set_or(s, a), b) == set_or(set_or(s, b), a),
{
    assert(set_has_kind(set_or(s, a), b.kind()) == set_has_kind(s, b.kind())) by {
        if set_has_kind(set_or(s, a), b.kind()) {
            let x = choose|x: Attr| set_or(s, a).contains(x) && (#[trigger] x.kind()) == b.kind();
            assert(s.contains(x));
        }
        if set_has_kind(s, b.kind()) {
            let x = choose|x: Attr| s.contains(x) && (#[trigger] x.kind()) == b.kind();
            assert(set_or(s, a).contains(x));
        }
    }
    assert(set_has_kind(set_or(s, b), a.kind()) == set_has_kind(s, a.kind())) by {
        if set_has_kind(set_or(s, b), a.kind()) {
            let x = choose|x: Attr| set_or(s, b).contains(x) && (#[trigger] x.kind()) == a.kind();
            assert(s.contains(x));
        }
        if set_has_kind(s, a.kind()) {
            let x = choose|x: Attr| s.contains(x) && (#[trigger] x.kind()) == a.kind();
            assert(set_or(s, b).contains(x));
        }
    }
    assert(set_or(set_or(s, a), b) =~= set_or(set_or(s, b), a));
}

/// Equality of styles does not depend on the order of their slots: two styles whose
/// slots hold the same attributes, in whatever order, are equal.
pub proof fn law_eq_ignores_order(s: TermStyle, t: TermStyle)
    requires
        forall|a: Attr| s.slots().contains(Some(a)) == t.slots().contains(Some(a)),
    ensures
        s@ == t@,
        s.eq_spec(&t),
{
    assert(s@ =~= t@);
}

/// What a merged style is: its slots are those of the first style after the operation
/// was applied with each attribute of the second, in the order of its slots; it holds the
/// merge of both sets of attributes; and it is well formed.
pub proof fn law_merged(s: TermStyle, op: StyleOp, other: TermStyle)
    requires
        s.wf(),
        other.wf(),
    ensures
        s.merged(op, other).slots() == slots_apply_all(s.slots(), op, held(other.slots())),
        s.merged(op, other)@ == set_merge(s@, op, other@),
        s.merged(op, other).wf(),
{
    lemma_slots_apply_all(s.slots(), op, held(other.slots()));
    lemma_style_merge(s@, op, other.slots());
    TermStyle::lemma_slots(slots_apply_all(s.slots(), op, held(other.slots())));
}

} // verus!
