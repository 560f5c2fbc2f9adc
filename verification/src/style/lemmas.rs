//! Lemmas on the model of a style: what an operation on the slots does to the set of
//! attributes, and that well-formed slots stay well formed.

use vstd::prelude::*;

use crate::attr::{Attr, AttrKind};
use crate::style::model::{
    first_free, held, is_first_free, kind_slot, kinds_distinct, kinds_unique, set_add, set_apply,
    set_apply_all, set_has_kind, set_merge, set_or, set_without_kind, slots_add, slots_apply,
    slots_apply_all, slots_have_kind, slots_or, slots_set, slots_unset_exact, slots_unset_variant,
    slots_wf, StyleOp, SLOTS,
};

verus! {

/// Among `n + 1` numbers below `n`, two are equal.
proof fn lemma_pigeonhole(s: Seq<int>, n: nat)
    requires
        s.len() == n + 1,
        forall|i: int| 0 <= i < s.len() ==> 0 <= #[trigger] s[i] < n,
    ensures
        exists|i: int, j: int| 0 <= i < j < s.len() && #[trigger] s[i] == #[trigger] s[j],
    decreases n,
{
    if n == 0 {
        let x = s[0];
        assert(0 <= x < n);
    } else if exists|i: int| 0 <= i < n && #[trigger] s[i] == s[n as int] {
        let i = choose|i: int| 0 <= i < n && #[trigger] s[i] == s[n as int];
        assert(s[i] == s[n as int]);
    } else {
        let last = s[n as int];
        let t = Seq::new(n, |i: int| if s[i] == n - 1 { last } else { s[i] });
        assert forall|i: int| 0 <= i < t.len() implies 0 <= #[trigger] t[i] < n - 1 by {
            assert(s[i] != s[n as int]);
        }
        lemma_pigeonhole(t, (n - 1) as nat);
        let (i, j) = choose|i: int, j: int|
            0 <= i < j < t.len() && #[trigger] t[i] == #[trigger] t[j];
        assert(s[i] != s[n as int]);
        assert(s[j] != s[n as int]);
        assert(s[i] == s[j]);
    }
}

/// A number for each kind, below `SLOTS`.
spec fn kind_index(k: AttrKind) -> int {
    match k {
        AttrKind::Bold => 0,
        AttrKind::Dim => 1,
        AttrKind::Italic => 2,
        AttrKind::Underline => 3,
        AttrKind::Blink => 4,
        AttrKind::Standout => 5,
        AttrKind::Reverse => 6,
        AttrKind::Secure => 7,
        AttrKind::ForegroundColor => 8,
        AttrKind::BackgroundColor => 9,
    }
}

/// Well-formed slots that hold no attribute of kind `k` have a free slot: there are as
/// many slots as kinds.
pub proof fn lemma_free_slot(s: Seq<Option<Attr>>, k: AttrKind)
    requires
        slots_wf(s),
        !slots_have_kind(s, k),
    ensures
        exists|i: int| is_first_free(s, i),
        is_first_free(s, first_free(s)),
{
    if forall|i: int| 0 <= i < s.len() ==> (#[trigger] s[i]) is Some {
        // Were every slot taken, the kinds of the ten slots would be among the nine kinds
        // other than `k`, and two slots would hold one kind.
        let shift = |x: int| if x > kind_index(k) { x - 1 } else { x };
        let t = Seq::new(SLOTS as nat, |i: int| shift(kind_index(s[i]->0.kind())));
        assert forall|i: int| 0 <= i < t.len() implies 0 <= #[trigger] t[i] < SLOTS - 1 by {
            assert(s[i] is Some);
            assert(s[i]->0.kind() != k);
        }
        lemma_pigeonhole(t, (SLOTS - 1) as nat);
        let (i, j) = choose|i: int, j: int|
            0 <= i < j < t.len() && #[trigger] t[i] == #[trigger] t[j];
        assert(s[i] is Some && s[j] is Some);
        assert(s[i]->0.kind() != k);
        assert(s[j]->0.kind() != k);
        assert(s[i]->0.kind() != s[j]->0.kind());
    }
    let some = choose|i: int| 0 <= i < s.len() && !((#[trigger] s[i]) is Some);
    lemma_least_free(s, some);
}

/// Below a free slot there is a first free slot.
proof fn lemma_least_free(s: Seq<Option<Attr>>, i: int)
    requires
        0 <= i < s.len(),
        s[i] is None,
    ensures
        exists|f: int| is_first_free(s, f),
        is_first_free(s, first_free(s)),
    decreases i,
{
    if forall|j: int| 0 <= j < i ==> (#[trigger] s[j]) is Some {
        assert(is_first_free(s, i));
    } else {
        let j = choose|j: int| 0 <= j < i && !((#[trigger] s[j]) is Some);
        lemma_least_free(s, j);
    }
}

/// In well-formed slots the slot that holds a kind is the only one.
pub proof fn lemma_kind_slot(s: Seq<Option<Attr>>, p: int)
    requires
        slots_wf(s),
        0 <= p < s.len(),
        s[p] is Some,
    ensures
        slots_have_kind(s, s[p]->0.kind()),
        kind_slot(s, s[p]->0.kind()) == p,
{
    let k = s[p]->0.kind();
    let q = kind_slot(s, k);
    assert(0 <= q < s.len() && s[q] is Some && s[q]->0.kind() == k);
    if q < p {
        assert(s[q]->0.kind() != s[p]->0.kind());
    } else if p < q {
        assert(s[p]->0.kind() != s[q]->0.kind());
    }
}

/// The first slot that holds exactly `attr` is the one that `index_of` names.
pub proof fn lemma_exact_slot(s: Seq<Option<Attr>>, attr: Attr, p: int)
    requires
        slots_wf(s),
        0 <= p < s.len(),
        s[p] == Some(attr),
    ensures
        s.contains(Some(attr)),
        s.index_of(Some(attr)) == p,
{
    let q = s.index_of(Some(attr));
    assert(0 <= q < s.len() && s[q] == Some(attr));
    if q < p {
        assert(s[q]->0.kind() != s[p]->0.kind());
    } else if p < q {
        assert(s[p]->0.kind() != s[q]->0.kind());
    }
}

/// The slots hold a kind just when their set of attributes does.
pub proof fn lemma_have_kind(s: Seq<Option<Attr>>, k: AttrKind)
    ensures
        slots_have_kind(s, k) == set_has_kind(slots_set(s), k),
{
    if slots_have_kind(s, k) {
        let i = kind_slot(s, k);
        let a = s[i]->0;
        assert(s[i] == Some(a));
        assert(slots_set(s).contains(a) && a.kind() == k);
    }
    if set_has_kind(slots_set(s), k) {
        let a = choose|a: Attr| slots_set(s).contains(a) && (#[trigger] a.kind()) == k;
        let i = choose|i: int| 0 <= i < s.len() && s[i] == Some(a);
        assert(s[i] is Some && s[i]->0.kind() == k);
    }
}

/// Adding to well-formed slots leaves them well formed, and adds to their set.
pub proof fn lemma_slots_add(s: Seq<Option<Attr>>, attr: Attr)
    requires
        slots_wf(s),
    ensures
        slots_wf(slots_add(s, attr)),
        slots_set(slots_add(s, attr)) == set_add(slots_set(s), attr),
{
    let k = attr.kind();
    let p = if slots_have_kind(s, k) {
        kind_slot(s, k)
    } else {
        lemma_free_slot(s, k);
        first_free(s)
    };
    let t = slots_add(s, attr);
    assert(t == s.update(p, Some(attr)));
    assert(0 <= p < s.len());
    lemma_update_kind(s, p, attr);
    assert forall|a: Attr| slots_set(t).contains(a) == set_add(slots_set(s), attr).contains(a) by {
        if slots_set(t).contains(a) {
            let i = choose|i: int| 0 <= i < t.len() && t[i] == Some(a);
            if i != p {
                assert(s[i] == Some(a));
                assert(t[i]->0.kind() != t[p]->0.kind());
            }
        }
        if set_add(slots_set(s), attr).contains(a) {
            if a == attr {
                assert(t[p] == Some(a));
            } else {
                let i = choose|i: int| 0 <= i < s.len() && s[i] == Some(a);
                if i == p {
                    assert(s[p]->0.kind() == k);
                }
                assert(t[i] == Some(a));
            }
        }
    }
    assert(slots_set(t) =~= set_add(slots_set(s), attr));
}

/// Writing an attribute into the slot of its kind, or into a free slot where its kind is
/// not held, leaves the slots well formed.
pub proof fn lemma_update_kind(s: Seq<Option<Attr>>, p: int, attr: Attr)
    requires
        slots_wf(s),
        0 <= p < s.len(),
        if slots_have_kind(s, attr.kind()) {
            p == kind_slot(s, attr.kind())
        } else {
            s[p] is None
        },
    ensures
        slots_wf(s.update(p, Some(attr))),
{
    let t = s.update(p, Some(attr));
    let k = attr.kind();
    assert forall|i: int, j: int|
        0 <= i < j < t.len() && (#[trigger] t[i]) is Some && (#[trigger] t[j]) is Some
        implies t[i]->0.kind() != t[j]->0.kind() by {
        if i != p && j != p {
            assert(s[i] is Some && s[j] is Some);
        } else {
            let o = if i == p { j } else { i };
            assert(s[o] is Some);
            if s[o]->0.kind() == k {
                lemma_kind_slot(s, o);
            }
        }
    }
}

/// Or-ing into well-formed slots leaves them well formed, and or-s into their set.
pub proof fn lemma_slots_or(s: Seq<Option<Attr>>, attr: Attr)
    requires
        slots_wf(s),
    ensures
        slots_wf(slots_or(s, attr)),
        slots_set(slots_or(s, attr)) == set_or(slots_set(s), attr),
{
    lemma_have_kind(s, attr.kind());
    if !slots_have_kind(s, attr.kind()) {
        lemma_slots_add(s, attr);
        assert(set_without_kind(slots_set(s), attr.kind()) =~= slots_set(s));
    }
}

/// Clearing a slot of well-formed slots leaves them well formed, and takes what the slot
/// held out of their set.
pub proof fn lemma_clear_slot(s: Seq<Option<Attr>>, p: int)
    requires
        slots_wf(s),
        0 <= p < s.len(),
        s[p] is Some,
    ensures
        slots_wf(s.update(p, None)),
        slots_set(s.update(p, None)) == slots_set(s).remove(s[p]->0),
        slots_set(s.update(p, None)) == set_without_kind(slots_set(s), s[p]->0.kind()),
{
    let t = s.update(p, None);
    let gone = s[p]->0;
    assert forall|i: int, j: int|
        0 <= i < j < t.len() && (#[trigger] t[i]) is Some && (#[trigger] t[j]) is Some
        implies t[i]->0.kind() != t[j]->0.kind() by {
        assert(s[i] is Some && s[j] is Some);
    }
    assert forall|a: Attr| slots_set(t).contains(a) == slots_set(s).remove(gone).contains(a) by {
        if slots_set(t).contains(a) {
            let i = choose|i: int| 0 <= i < t.len() && t[i] == Some(a);
            assert(s[i] == Some(a));
            if a == gone {
                lemma_kind_slot(s, i);
                lemma_kind_slot(s, p);
            }
        }
        if slots_set(s).remove(gone).contains(a) {
            let i = choose|i: int| 0 <= i < s.len() && s[i] == Some(a);
            assert(t[i] == Some(a));
        }
    }
    assert(slots_set(t) =~= slots_set(s).remove(gone));
    assert forall|a: Attr|
        slots_set(s).remove(gone).contains(a) == set_without_kind(
            slots_set(s),
            gone.kind(),
        ).contains(a) by {
        if slots_set(s).contains(a) && a != gone && a.kind() == gone.kind() {
            let i = choose|i: int| 0 <= i < s.len() && s[i] == Some(a);
            lemma_kind_slot(s, i);
            lemma_kind_slot(s, p);
        }
        if a == gone {
            assert(s[p] == Some(gone));
        }
    }
    assert(slots_set(s).remove(gone) =~= set_without_kind(slots_set(s), gone.kind()));
}

/// Unsetting an exact attribute leaves well-formed slots well formed, and removes the
/// attribute from their set.
pub proof fn lemma_slots_unset_exact(s: Seq<Option<Attr>>, attr: Attr)
    requires
        slots_wf(s),
    ensures
        slots_wf(slots_unset_exact(s, attr)),
        slots_set(slots_unset_exact(s, attr)) == slots_set(s).remove(attr),
{
    if s.contains(Some(attr)) {
        let p = s.index_of(Some(attr));
        assert(s[p] == Some(attr));
        lemma_clear_slot(s, p);
    } else {
        assert(slots_set(s) =~= slots_set(s).remove(attr));
    }
}

/// Unsetting a kind leaves well-formed slots well formed, and removes the kind from
/// their set.
pub proof fn lemma_slots_unset_variant(s: Seq<Option<Attr>>, attr: Attr)
    requires
        slots_wf(s),
    ensures
        slots_wf(slots_unset_variant(s, attr)),
        slots_set(slots_unset_variant(s, attr)) == set_without_kind(slots_set(s), attr.kind()),
{
    lemma_have_kind(s, attr.kind());
    if slots_have_kind(s, attr.kind()) {
        let p = kind_slot(s, attr.kind());
        lemma_clear_slot(s, p);
    } else {
        assert(slots_set(s) =~= set_without_kind(slots_set(s), attr.kind()));
    }
}

/// One operation leaves well-formed slots well formed, and does to their set what it
/// does to them.
pub proof fn lemma_slots_apply(s: Seq<Option<Attr>>, op: StyleOp, attr: Attr)
    requires
        slots_wf(s),
    ensures
        slots_wf(slots_apply(s, op, attr)),
        slots_set(slots_apply(s, op, attr)) == set_apply(slots_set(s), op, attr),
{
    match op {
        StyleOp::Add => lemma_slots_add(s, attr),
        StyleOp::Or => lemma_slots_or(s, attr),
        StyleOp::UnsetExact => lemma_slots_unset_exact(s, attr),
        StyleOp::UnsetVariant => lemma_slots_unset_variant(s, attr),
    }
}

/// A run of operations leaves well-formed slots well formed, and does to their set what
/// it does to them.
pub proof fn lemma_slots_apply_all(s: Seq<Option<Attr>>, op: StyleOp, attrs: Seq<Attr>)
    requires
        slots_wf(s),
    ensures
        slots_wf(slots_apply_all(s, op, attrs)),
        slots_set(slots_apply_all(s, op, attrs)) == set_apply_all(slots_set(s), op, attrs),
    decreases attrs.len(),
{
    if attrs.len() > 0 {
        lemma_slots_apply_all(s, op, attrs.drop_last());
        lemma_slots_apply(slots_apply_all(s, op, attrs.drop_last()), op, attrs.last());
    }
}

/// The attributes held by one more slot.
pub proof fn lemma_held_step(s: Seq<Option<Attr>>, i: int)
    requires
        0 <= i < s.len(),
    ensures
        held(s.take(i + 1)) == match s[i] {
            Some(a) => held(s.take(i)).push(a),
            None => held(s.take(i)),
        },
{
    assert(s.take(i + 1).drop_last() =~= s.take(i));
}

/// What `held` lists is what the slots hold.
pub proof fn lemma_held_set(s: Seq<Option<Attr>>)
    ensures
        held(s).to_set() == slots_set(s),
    decreases s.len(),
{
    if s.len() == 0 {
        assert(held(s).to_set() =~= slots_set(s));
    } else {
        let r = s.drop_last();
        lemma_held_set(r);
        assert forall|a: Attr| held(s).to_set().contains(a) == slots_set(s).contains(a) by {
            if held(s).to_set().contains(a) {
                let i = choose|i: int| 0 <= i < held(s).len() && held(s)[i] == a;
                if s.last() == Some(a) {
                    assert(s[s.len() - 1] == Some(a));
                } else {
                    assert(held(r)[i] == a);
                    assert(held(r).to_set().contains(a));
                    let j = choose|j: int| 0 <= j < r.len() && r[j] == Some(a);
                    assert(s[j] == Some(a));
                }
            }
            if slots_set(s).contains(a) {
                let j = choose|j: int| 0 <= j < s.len() && s[j] == Some(a);
                if j == s.len() - 1 {
                    assert(held(s) == held(r).push(a));
                    assert(held(s)[held(s).len() - 1] == a);
                } else {
                    assert(r[j] == Some(a));
                    assert(slots_set(r).contains(a));
                    assert(held(r).to_set().contains(a));
                    let i = choose|i: int| 0 <= i < held(r).len() && held(r)[i] == a;
                    assert(held(s)[i] == a);
                }
            }
        }
        assert(held(s).to_set() =~= slots_set(s));
    }
}

/// The attributes that well-formed slots hold are of different kinds.
pub proof fn lemma_held_distinct(s: Seq<Option<Attr>>)
    requires
        kinds_unique(s),
    ensures
        kinds_distinct(held(s)),
    decreases s.len(),
{
    if s.len() > 0 {
        let r = s.drop_last();
        assert(kinds_unique(r)) by {
            assert forall|i: int, j: int|
                0 <= i < j < r.len() && (#[trigger] r[i]) is Some && (#[trigger] r[j]) is Some
                implies r[i]->0.kind() != r[j]->0.kind() by {
                assert(s[i] is Some && s[j] is Some);
            }
        }
        lemma_held_distinct(r);
        lemma_held_set(r);
        if let Some(a) = s.last() {
            let h = held(r);
            assert forall|i: int, j: int| 0 <= i < j < held(s).len()
            implies (#[trigger] held(s)[i]).kind() != (#[trigger] held(s)[j]).kind() by {
                if j < h.len() {
                    assert(h[i].kind() != h[j].kind());
                } else {
                    assert(h.to_set().contains(h[i]));
                    let q = choose|q: int| 0 <= q < r.len() && r[q] == Some(h[i]);
                    assert(s[q] is Some && s[s.len() - 1] is Some);
                }
            }
        }
    }
}

/// The set of a list with its last attribute set apart.
proof fn lemma_to_set_last(attrs: Seq<Attr>)
    requires
        attrs.len() > 0,
    ensures
        attrs.to_set() == attrs.drop_last().to_set().insert(attrs.last()),
        forall|k: AttrKind|
            set_has_kind(attrs.to_set(), k) == (set_has_kind(attrs.drop_last().to_set(), k) || k
                == attrs.last().kind()),
        kinds_distinct(attrs) ==> kinds_distinct(attrs.drop_last()) && !set_has_kind(
            attrs.drop_last().to_set(),
            attrs.last().kind(),
        ),
{
    let r = attrs.drop_last();
    let a = attrs.last();
    assert forall|x: Attr| attrs.to_set().contains(x) == r.to_set().insert(a).contains(x) by {
        if attrs.to_set().contains(x) {
            let i = choose|i: int| 0 <= i < attrs.len() && attrs[i] == x;
            if i < r.len() {
                assert(r[i] == x);
            }
        }
        if r.to_set().contains(x) {
            let i = choose|i: int| 0 <= i < r.len() && r[i] == x;
            assert(attrs[i] == x);
        }
        if x == a {
            assert(attrs[attrs.len() - 1] == x);
        }
    }
    assert(attrs.to_set() =~= r.to_set().insert(a));
    assert forall|k: AttrKind|
        set_has_kind(attrs.to_set(), k) == (set_has_kind(r.to_set(), k) || k == a.kind()) by {
        if set_has_kind(attrs.to_set(), k) {
            let x = choose|x: Attr| attrs.to_set().contains(x) && (#[trigger] x.kind()) == k;
            if x != a {
                assert(r.to_set().contains(x));
            }
        }
        if set_has_kind(r.to_set(), k) {
            let x = choose|x: Attr| r.to_set().contains(x) && (#[trigger] x.kind()) == k;
            assert(attrs.to_set().contains(x));
        }
        if k == a.kind() {
            assert(attrs.to_set().contains(a));
        }
    }
    if kinds_distinct(attrs) {
        assert forall|i: int, j: int| 0 <= i < j < r.len() implies (#[trigger] r[i]).kind() != (
        #[trigger] r[j]).kind() by {
            assert(attrs[i].kind() != attrs[j].kind());
        }
        if set_has_kind(r.to_set(), a.kind()) {
            let x = choose|x: Attr| r.to_set().contains(x) && (#[trigger] x.kind()) == a.kind();
            let i = choose|i: int| 0 <= i < r.len() && r[i] == x;
            assert(attrs[i].kind() != attrs[attrs.len() - 1].kind());
        }
    }
}

/// What a run of operations does to a set: it merges the set of their attributes into
/// it. For adding and or-ing this holds of attributes of different kinds.
pub proof fn lemma_apply_all_merge(s: Set<Attr>, op: StyleOp, attrs: Seq<Attr>)
    requires
        op == StyleOp::Add || op == StyleOp::Or ==> kinds_distinct(attrs),
    ensures
        set_apply_all(s, op, attrs) == set_merge(s, op, attrs.to_set()),
    decreases attrs.len(),
{
    if attrs.len() == 0 {
        assert(attrs.to_set() =~= Set::<Attr>::empty());
        assert(set_merge(s, op, Set::<Attr>::empty()) =~= s);
    } else {
        let r = attrs.drop_last();
        let a = attrs.last();
        let k = a.kind();
        lemma_to_set_last(attrs);
        lemma_apply_all_merge(s, op, r);
        let before = set_merge(s, op, r.to_set());
        let after = set_apply(before, op, a);
        let goal = set_merge(s, op, attrs.to_set());
        assert(set_apply_all(s, op, attrs) == after);
        match op {
            StyleOp::Add => {
                assert forall|x: Attr| after.contains(x) == goal.contains(x) by {
                    if r.to_set().contains(x) {
                        assert(x.kind() != k);
                    }
                }
            },
            StyleOp::Or => {
                if set_has_kind(before, k) {
                    let x = choose|x: Attr| before.contains(x) && (#[trigger] x.kind()) == k;
                    if !s.contains(x) {
                        assert(r.to_set().contains(x));
                    }
                    assert(set_has_kind(s, k));
                }
                if set_has_kind(s, k) {
                    let x = choose|x: Attr| s.contains(x) && (#[trigger] x.kind()) == k;
                    assert(before.contains(x));
                }
                assert forall|x: Attr| after.contains(x) == goal.contains(x) by {}
            },
            StyleOp::UnsetExact => {
                assert forall|x: Attr| after.contains(x) == goal.contains(x) by {}
            },
            StyleOp::UnsetVariant => {
                assert forall|x: Attr| after.contains(x) == goal.contains(x) by {}
            },
        }
        assert(after =~= goal);
    }
}

/// What a set becomes when `op` is applied with each attribute that the slots `o` hold.
pub proof fn lemma_style_merge(s: Set<Attr>, op: StyleOp, o: Seq<Option<Attr>>)
    requires
        kinds_unique(o),
    ensures
        set_apply_all(s, op, held(o)) == set_merge(s, op, slots_set(o)),
{
    lemma_held_distinct(o);
    lemma_held_set(o);
    lemma_apply_all_merge(s, op, held(o));
}

} // verus!
