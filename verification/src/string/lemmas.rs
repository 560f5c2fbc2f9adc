//! Lemmas on the model of a styled string.

use vstd::prelude::*;
use vstd::utf8::{encode_scalar, encode_utf8};

use crate::string::model::{
    byte_len, coalesced, extended, is_blank, join, lead, neighbours_differ, no_blank, plain, purge,
    same_style, Run,
};
use crate::style::TermStyle;

verus! {

/// One more run of a sequence: what the first `i + 1` runs are, from the first `i`.
pub proof fn lemma_take_step(runs: Seq<Run>, i: int)
    requires
        0 <= i < runs.len(),
    ensures
        runs.take(i + 1).drop_last() == runs.take(i),
        runs.take(i + 1).last() == runs[i],
        plain(runs.take(i + 1)) == plain(runs.take(i)) + runs[i].text,
        byte_len(runs.take(i + 1)) == byte_len(runs.take(i)) + encode_utf8(runs[i].text).len(),
{
    assert(runs.take(i + 1).drop_last() =~= runs.take(i));
}

/// The first runs of a sequence have no more bytes than all of them.
pub proof fn lemma_byte_len_take(runs: Seq<Run>, i: int)
    requires
        0 <= i <= runs.len(),
    ensures
        byte_len(runs.take(i)) <= byte_len(runs),
    decreases runs.len() - i,
{
    if i == runs.len() {
        assert(runs.take(i) =~= runs);
    } else {
        lemma_take_step(runs, i);
        lemma_byte_len_take(runs, i + 1);
    }
}

/// A text has no bytes just when it has no characters.
pub proof fn lemma_empty_text(text: Seq<char>)
    ensures
        (encode_utf8(text).len() == 0) == (text.len() == 0),
{
    if text.len() > 0 {
        assert(encode_scalar(text[0] as u32).len() > 0);
    }
}

/// The runs have no bytes just when they have no characters.
pub proof fn lemma_empty_plain(runs: Seq<Run>)
    ensures
        (byte_len(runs) == 0) == (plain(runs).len() == 0),
    decreases runs.len(),
{
    if runs.len() > 0 {
        lemma_empty_plain(runs.drop_last());
        lemma_empty_text(runs.last().text);
    }
}

/// One more run of a sequence: what is left of the first `i + 1` runs after the purge.
pub proof fn lemma_purge_step(runs: Seq<Run>, i: int)
    requires
        0 <= i < runs.len(),
    ensures
        purge(runs.take(i + 1)) == if is_blank(runs[i]) {
            purge(runs.take(i))
        } else {
            purge(runs.take(i)).push(runs[i])
        },
{
    assert(runs.take(i + 1).drop_last() =~= runs.take(i));
}

/// The number of leading runs with the attributes of `style` is `k`, where the first `k`
/// runs have them and the next one, if there is one, does not.
pub proof fn lemma_lead(style: TermStyle, runs: Seq<Run>, k: int)
    requires
        0 <= k <= runs.len(),
        forall|j: int| 0 <= j < k ==> same_style((#[trigger] runs[j]).style, style),
        k < runs.len() ==> !same_style(runs[k].style, style),
    ensures
        lead(style, runs) == k,
    decreases k,
{
    if k > 0 {
        let rest = runs.drop_first();
        assert forall|j: int| 0 <= j < k - 1 implies same_style(
            (#[trigger] rest[j]).style,
            style,
        ) by {
            assert(rest[j] == runs[j + 1]);
        }
        lemma_lead(style, rest, k - 1);
    }
}

/// The bytes of two texts, one after the other, are the bytes of the first followed by
/// those of the second.
pub proof fn lemma_encode_concat(a: Seq<char>, b: Seq<char>)
    ensures
        encode_utf8(a + b) == encode_utf8(a) + encode_utf8(b),
    decreases a.len(),
{
    if a.len() == 0 {
        assert(a + b =~= b);
        assert(encode_utf8(a) + encode_utf8(b) =~= encode_utf8(b));
    } else {
        assert((a + b).drop_first() =~= a.drop_first() + b);
        lemma_encode_concat(a.drop_first(), b);
        assert(encode_utf8(a + b) =~= encode_utf8(a) + encode_utf8(b));
    }
}

/// The text of runs, one sequence after the other.
pub proof fn lemma_plain_concat(a: Seq<Run>, b: Seq<Run>)
    ensures
        plain(a + b) == plain(a) + plain(b),
    decreases b.len(),
{
    if b.len() == 0 {
        assert(a + b =~= a);
        assert(plain(a) + plain(b) =~= plain(a));
    } else {
        assert((a + b).drop_last() =~= a + b.drop_last());
        lemma_plain_concat(a, b.drop_last());
        assert(plain(a + b) =~= plain(a) + plain(b));
    }
}

/// The number of bytes of runs is that of their text.
pub proof fn lemma_byte_len_plain(runs: Seq<Run>)
    ensures
        byte_len(runs) == encode_utf8(plain(runs)).len(),
    decreases runs.len(),
{
    if runs.len() > 0 {
        lemma_byte_len_plain(runs.drop_last());
        lemma_encode_concat(plain(runs.drop_last()), runs.last().text);
    }
}

/// The purge keeps the text.
pub proof fn lemma_purge_plain(runs: Seq<Run>)
    ensures
        plain(purge(runs)) == plain(runs),
    decreases runs.len(),
{
    if runs.len() > 0 {
        let rest = runs.drop_last();
        lemma_purge_plain(rest);
        if is_blank(runs.last()) {
            assert(plain(rest) + runs.last().text =~= plain(rest));
        } else {
            assert(purge(rest).push(runs.last()).drop_last() =~= purge(rest));
        }
    }
}

/// No more runs lead than there are.
pub proof fn lemma_lead_bound(style: TermStyle, runs: Seq<Run>)
    ensures
        lead(style, runs) <= runs.len(),
        forall|j: int| 0 <= j < lead(style, runs) ==> same_style((#[trigger] runs[j]).style, style),
        lead(style, runs) < runs.len() ==> !same_style(runs[lead(style, runs) as int].style, style),
    decreases runs.len(),
{
    if runs.len() > 0 && same_style(runs.first().style, style) {
        let rest = runs.drop_first();
        lemma_lead_bound(style, rest);
        assert forall|j: int| 0 <= j < lead(style, runs) implies same_style(
            (#[trigger] runs[j]).style,
            style,
        ) by {
            if j > 0 {
                assert(runs[j] == rest[j - 1]);
            }
        }
        if lead(style, runs) < runs.len() {
            assert(runs[lead(style, runs) as int] == rest[lead(style, rest) as int]);
        }
    }
}

/// Joining keeps the text.
pub proof fn lemma_join_plain(a: Seq<Run>, b: Seq<Run>)
    ensures
        plain(join(a, b)) == plain(a) + plain(b),
{
    if a.len() == 0 {
        assert(plain(a) + plain(b) =~= plain(b));
    } else {
        lemma_lead_bound(a.last().style, b);
        let k = lead(a.last().style, b) as int;
        let head = a.drop_last().push(extended(a.last(), plain(b.take(k))));
        lemma_plain_concat(head, b.skip(k));
        lemma_plain_concat(b.take(k), b.skip(k));
        assert(b.take(k) + b.skip(k) =~= b);
        assert(head.drop_last() =~= a.drop_last());
        assert(plain(head) =~= plain(a) + plain(b.take(k)));
        assert(plain(join(a, b)) =~= plain(a) + plain(b));
    }
}

/// The purge leaves no blank run, and takes nothing from runs without a blank one. The
/// neighbours of coalesced runs still differ after it.
pub proof fn lemma_purge_runs(runs: Seq<Run>)
    ensures
        no_blank(purge(runs)),
        purge(runs).len() <= runs.len(),
        no_blank(runs) ==> purge(runs) == runs,
        coalesced(runs) ==> neighbours_differ(purge(runs)),
    decreases runs.len(),
{
    if runs.len() > 0 {
        let rest = runs.drop_last();
        lemma_purge_runs(rest);
        if no_blank(runs) {
            assert forall|i: int| 0 <= i < rest.len() implies !is_blank(#[trigger] rest[i]) by {
                assert(rest[i] == runs[i]);
            }
            assert(!is_blank(runs[runs.len() - 1]));
            assert(purge(runs) =~= runs);
        }
        if coalesced(runs) {
            if runs.len() >= 2 {
                assert(purge(runs) == runs);
            } else {
                assert(purge(rest) =~= Seq::<Run>::empty());
            }
        }
    }
}

/// What the purge leaves of a single run.
pub proof fn lemma_purge_one(r: Run)
    ensures
        purge(seq![r]) == if is_blank(r) {
            Seq::<Run>::empty()
        } else {
            seq![r]
        },
{
    let none = Seq::<Run>::empty();
    assert(purge(none) == none);
    assert(seq![r].drop_last() =~= none);
    assert(seq![r].last() == r);
    if !is_blank(r) {
        assert(none.push(r) =~= seq![r]);
    }
}

} // verus!
