//! The model of a styled string: a sequence of runs, each a style with a text, and what
//! appending does to it.

use vstd::prelude::*;
use vstd::utf8::encode_utf8;

use crate::attr::Attr;
use crate::style::model::StyleOp;
use crate::style::TermStyle;

verus! {

/// A run: a text with the style that it is shown in.
pub struct Run {
    pub style: TermStyle,
    pub text: Seq<char>,
}

/// Whether both styles hold the same attributes.
pub open spec fn same_style(a: TermStyle, b: TermStyle) -> bool {
    a@ == b@
}

/// Whether the run is blank: no attribute and no text.
pub open spec fn is_blank(r: Run) -> bool {
    r.style@ == Set::<Attr>::empty() && r.text.len() == 0
}

/// The runs without the blank ones.
pub open spec fn purge(runs: Seq<Run>) -> Seq<Run>
    decreases runs.len(),
{
    if runs.len() == 0 {
        runs
    } else if is_blank(runs.last()) {
        purge(runs.drop_last())
    } else {
        purge(runs.drop_last()).push(runs.last())
    }
}

/// The texts of the runs, one after the other.
pub open spec fn plain(runs: Seq<Run>) -> Seq<char>
    decreases runs.len(),
{
    if runs.len() == 0 {
        Seq::empty()
    } else {
        plain(runs.drop_last()) + runs.last().text
    }
}

/// The number of bytes of the texts of the runs, in UTF-8.
pub open spec fn byte_len(runs: Seq<Run>) -> nat
    decreases runs.len(),
{
    if runs.len() == 0 {
        0
    } else {
        byte_len(runs.drop_last()) + encode_utf8(runs.last().text).len()
    }
}

/// The number of runs at the head of `runs` that have the attributes of `style`.
pub open spec fn lead(style: TermStyle, runs: Seq<Run>) -> nat
    decreases runs.len(),
{
    if runs.len() == 0 || !same_style(runs.first().style, style) {
        0
    } else {
        1 + lead(style, runs.drop_first())
    }
}

/// The run `r` with `text` behind its own.
pub open spec fn extended(r: Run, text: Seq<char>) -> Run {
    Run { style: r.style, text: r.text + text }
}

/// The runs `a` with the runs `b` behind them: the runs at the head of `b` that have the
/// attributes of the last run of `a` give their texts to it, the others follow unchanged.
pub open spec fn join(a: Seq<Run>, b: Seq<Run>) -> Seq<Run> {
    if a.len() == 0 {
        b
    } else {
        let k = lead(a.last().style, b) as int;
        a.drop_last().push(extended(a.last(), plain(b.take(k)))) + b.skip(k)
    }
}

/// The runs of a string after another one was appended: both lose their blank runs and
/// are then joined.
pub open spec fn appended(a: Seq<Run>, b: Seq<Run>) -> Seq<Run> {
    join(purge(a), purge(b))
}

/// The runs of a string after a text was appended: the last run takes it; a string
/// without runs gets one of the empty style, unless the text is empty.
pub open spec fn text_appended(a: Seq<Run>, text: Seq<char>) -> Seq<Run> {
    if a.len() == 0 {
        if text.len() == 0 {
            a
        } else {
            seq![Run { style: TermStyle::empty(), text: text }]
        }
    } else {
        a.drop_last().push(extended(a.last(), text))
    }
}

/// The runs with `style` in place of the style of each.
pub open spec fn restyled(runs: Seq<Run>, style: TermStyle) -> Seq<Run> {
    Seq::new(runs.len(), |i: int| Run { style: style, text: runs[i].text })
}

/// The runs after `op` was applied to the style of each, with the attributes of `style`.
pub open spec fn style_merged(runs: Seq<Run>, op: StyleOp, style: TermStyle) -> Seq<Run> {
    Seq::new(
        runs.len(),
        |i: int| Run { style: runs[i].style.merged(op, style), text: runs[i].text },
    )
}

/// Whether no two neighbours among the runs have the same attributes.
pub open spec fn neighbours_differ(runs: Seq<Run>) -> bool {
    forall|i: int|
        0 <= i && i + 1 < runs.len() ==> !same_style(
            (#[trigger] runs[i]).style,
            runs[i + 1].style,
        )
}

/// Whether none of the runs is blank.
pub open spec fn no_blank(runs: Seq<Run>) -> bool {
    forall|i: int| 0 <= i < runs.len() ==> !is_blank(#[trigger] runs[i])
}

/// Whether the runs are coalesced: no two neighbours have the same attributes, and a
/// blank run stands alone.
pub open spec fn coalesced(runs: Seq<Run>) -> bool {
    &&& neighbours_differ(runs)
    &&& runs.len() >= 2 ==> no_blank(runs)
}

} // verus!
