//! Laws of styled strings: what appending keeps and what it joins.

use vstd::prelude::*;

use crate::string::lemmas::{
    lemma_byte_len_plain, lemma_encode_concat, lemma_join_plain, lemma_lead_bound, lemma_purge_one,
    lemma_purge_plain, lemma_purge_runs,
};
use crate::string::model::{
    appended, byte_len, coalesced, extended, is_blank, join, lead, neighbours_differ, no_blank,
    plain, purge, restyled, same_style, style_merged, text_appended, Run,
};
use crate::style::model::StyleOp;
use crate::style::TermStyle;

verus! {

/// Appending is a homomorphism on the text: the text of the result is the text of the
/// first string followed by that of the second.
pub proof fn law_append_plain(a: Seq<Run>, b: Seq<Run>)
    ensures
        plain(appended(a, b)) == plain(a) + plain(b),
{
    lemma_purge_plain(a);
    lemma_purge_plain(b);
    lemma_join_plain(purge(a), purge(b));
}

/// The length of the result of appending is the sum of the lengths of both strings.
pub proof fn law_append_len(a: Seq<Run>, b: Seq<Run>)
    ensures
        byte_len(appended(a, b)) == byte_len(a) + byte_len(b),
{
    law_append_plain(a, b);
    lemma_byte_len_plain(appended(a, b));
    lemma_byte_len_plain(a);
    lemma_byte_len_plain(b);
    lemma_encode_concat(plain(a), plain(b));
}

/// Appending the string of no text in the empty style changes nothing but that the blank
/// runs leave.
pub proof fn law_append_empty(a: Seq<Run>)
    ensures
        appended(a, seq![Run { style: TermStyle::empty(), text: Seq::<char>::empty() }]) == purge(
            a,
        ),
{
    TermStyle::lemma_empty();
    law_append_blank(a, Run { style: TermStyle::empty(), text: Seq::<char>::empty() });
}

/// Appending a blank run changes nothing but that the blank runs leave.
pub proof fn law_append_blank(a: Seq<Run>, blank: Run)
    requires
        is_blank(blank),
    ensures
        appended(a, seq![blank]) == purge(a),
{
    lemma_purge_one(blank);
    let p = purge(a);
    if p.len() > 0 {
        let none = Seq::<Run>::empty();
        assert(lead(p.last().style, none) == 0);
        assert(none.take(0) =~= none);
        assert(extended(p.last(), plain(none)) == p.last()) by {
            assert(p.last().text + plain(none) =~= p.last().text);
        }
        assert(join(p, none) =~= p);
    }
}

/// Appending a run to a run with the same attributes gives one run with both texts, in
/// the style of the first; appending a run with other attributes gives two runs.
pub proof fn law_append_runs(x: Run, y: Run)
    requires
        !is_blank(x),
        !is_blank(y),
    ensures
        same_style(x.style, y.style) ==> appended(seq![x], seq![y]) == seq![extended(x, y.text)],
        !same_style(x.style, y.style) ==> appended(seq![x], seq![y]) == seq![x, y],
{
    let a = seq![x];
    let b = seq![y];
    let none = Seq::<Run>::empty();
    lemma_purge_one(x);
    lemma_purge_one(y);
    assert(b.drop_first() =~= none);
    if same_style(x.style, y.style) {
        assert(lead(x.style, none) == 0);
        assert(lead(x.style, b) == 1);
        assert(b.take(1) =~= b);
        assert(plain(b) =~= y.text) by {
            assert(b.drop_last() =~= none);
            assert(plain(none) =~= Seq::<char>::empty());
        }
        assert(join(a, b) =~= seq![extended(x, y.text)]);
    } else {
        assert(lead(x.style, b) == 0);
        assert(b.take(0) =~= none);
        assert(extended(x, plain(none)) == x) by {
            assert(x.text + plain(none) =~= x.text);
        }
        assert(join(a, b) =~= seq![x, y]);
    }
}

/// Appending keeps strings coalesced: where no two neighbours of either string have the
/// same attributes, and a blank run stands alone, the same holds of the result.
pub proof fn law_append_coalesced(a: Seq<Run>, b: Seq<Run>)
    requires
        coalesced(a),
        coalesced(b),
    ensures
        coalesced(appended(a, b)),
        no_blank(appended(a, b)),
{
    lemma_purge_runs(a);
    lemma_purge_runs(b);
    let p = purge(a);
    let q = purge(b);
    assert(neighbours_differ(p) && no_blank(p));
    assert(neighbours_differ(q) && no_blank(q));
    if p.len() > 0 {
        let k = lead(p.last().style, q) as int;
        lemma_lead_bound(p.last().style, q);
        let last = extended(p.last(), plain(q.take(k)));
        let r = join(p, q);
        assert(r == p.drop_last().push(last) + q.skip(k));
        let n = p.len() as int;
        assert forall|i: int| 0 <= i < r.len() implies !is_blank(#[trigger] r[i]) by {
            if i < n - 1 {
                assert(r[i] == p[i]);
            } else if i == n - 1 {
                assert(!is_blank(p[n - 1]));
                if p[n - 1].text.len() > 0 {
                    assert(last.text.len() > 0);
                }
            } else {
                assert(r[i] == q[i - n + k]);
            }
        }
        assert forall|i: int| 0 <= i && i + 1 < r.len() implies !same_style(
            (#[trigger] r[i]).style,
            r[i + 1].style,
        ) by {
            if i + 1 < n - 1 {
                assert(r[i] == p[i] && r[i + 1] == p[i + 1]);
            } else if i + 1 == n - 1 {
                assert(r[i] == p[i]);
                assert(r[i + 1].style == p[i + 1].style);
            } else if i == n - 1 {
                assert(r[i + 1] == q[k]);
            } else {
                assert(r[i] == q[i - n + k] && r[i + 1] == q[i - n + k + 1]);
            }
        }
    }
}

/// Appending a text appends it to the text of the string, and keeps the string
/// coalesced.
pub proof fn law_append_text(a: Seq<Run>, text: Seq<char>)
    ensures
        plain(text_appended(a, text)) == plain(a) + text,
        coalesced(a) ==> coalesced(text_appended(a, text)),
{
    let r = text_appended(a, text);
    let none = Seq::<Run>::empty();
    if a.len() == 0 {
        assert(plain(a) + text =~= text);
        if text.len() > 0 {
            assert(r.drop_last() =~= none);
            assert(plain(none) + text =~= text);
        }
    } else {
        assert(r.drop_last() =~= a.drop_last());
        assert(plain(r) =~= plain(a) + text);
        if coalesced(a) {
            let n = a.len() as int;
            assert forall|i: int| 0 <= i && i + 1 < r.len() implies !same_style(
                (#[trigger] r[i]).style,
                r[i + 1].style,
            ) by {
                assert(r[i].style == a[i].style);
                assert(r[i + 1].style == a[i + 1].style);
            }
            if r.len() >= 2 {
                assert forall|i: int| 0 <= i < r.len() implies !is_blank(#[trigger] r[i]) by {
                    assert(!is_blank(a[i]));
                    if i == n - 1 && a[i].text.len() > 0 {
                        assert(r[i].text.len() > 0);
                    }
                }
            }
        }
    }
}

/// A change of the styles keeps the text and its length: the style of every run may be
/// replaced or merged with another, the texts stay.
pub proof fn law_style_keeps_text(runs: Seq<Run>, op: StyleOp, style: TermStyle)
    ensures
        plain(restyled(runs, style)) == plain(runs),
        byte_len(restyled(runs, style)) == byte_len(runs),
        plain(style_merged(runs, op, style)) == plain(runs),
        byte_len(style_merged(runs, op, style)) == byte_len(runs),
    decreases runs.len(),
{
    if runs.len() > 0 {
        let rest = runs.drop_last();
        law_style_keeps_text(rest, op, style);
        assert(restyled(runs, style).drop_last() =~= restyled(rest, style));
        assert(style_merged(runs, op, style).drop_last() =~= style_merged(rest, op, style));
    }
}

} // verus!
