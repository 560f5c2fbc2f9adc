//! The record of a write: the requests that a target received, and what the record of
//! each kind of write looks like.

use vstd::prelude::*;

use crate::attr::Attr;
use crate::error::Error;
use crate::output::{Step, TermOp, WriteMode};
use crate::string::model::Run;
use crate::style::model::held;

verus! {

/// One request that a target received, with the answer that it gave.
pub enum Sent {
    /// The question whether styled writes can be negotiated.
    CanStyle(bool),
    /// A reset of the terminal.
    Reset(Result<(), Error>),
    /// An attribute for the terminal.
    Attr(Attr, Result<(), Error>),
    /// A text for the terminal.
    StyledText(Seq<char>, Result<(), Error>),
    /// A text for the plain writer.
    PlainText(Seq<char>),
}

impl Sent {
    /// The answer to a request to the terminal. The other requests cannot fail.
    pub open spec fn outcome(self) -> Result<(), Error> {
        match self {
            Sent::Reset(r) => r,
            Sent::Attr(_, r) => r,
            Sent::StyledText(_, r) => r,
            _ => Ok(()),
        }
    }
}

/// The steps of the styled write of a run whose style holds `attrs`, in this order:
/// a reset, each attribute, the text, and a closing reset. Only the closing reset may
/// fail without the write being given up.
pub open spec fn styled_plan(attrs: Seq<Attr>) -> Seq<Step> {
    Seq::new(
        attrs.len() + 3,
        |i: int|
            if i == 0 {
                Step { op: TermOp::Reset, required: true }
            } else if i <= attrs.len() {
                Step { op: TermOp::Attr(attrs[i - 1]), required: true }
            } else if i == attrs.len() + 1 {
                Step { op: TermOp::Text, required: true }
            } else {
                Step { op: TermOp::Reset, required: false }
            },
    )
}

/// The steps of the styled write of `run`.
pub open spec fn run_plan(run: Run) -> Seq<Step> {
    styled_plan(held(run.style.slots()))
}

/// The record of the request of `step` for a run of `text`, with its answer.
pub open spec fn step_sent(step: Step, text: Seq<char>, outcome: Result<(), Error>) -> Sent {
    match step.op {
        TermOp::Reset => Sent::Reset(outcome),
        TermOp::Attr(attr) => Sent::Attr(attr, outcome),
        TermOp::Text => Sent::StyledText(text, outcome),
    }
}

/// Whether `sent` is the record of a styled write of `run` that ended in `result`: the
/// requests are those of the steps of the run, from the first on, each made after the
/// one before it did not end the write; the write ended with the last of them, in the
/// failure of a required step or after the closing reset.
pub open spec fn is_attempt(run: Run, sent: Seq<Sent>, result: Result<(), Error>) -> bool {
    let plan = run_plan(run);
    &&& 0 < sent.len() <= plan.len()
    &&& forall|i: int|
        0 <= i < sent.len() ==> (#[trigger] sent[i]) == step_sent(
            plan[i],
            run.text,
            sent[i].outcome(),
        )
    &&& forall|i: int|
        0 <= i < sent.len() - 1 ==> plan[i].spec_verdict((#[trigger] sent[i]).outcome()) is Ok
    &&& result == plan[sent.len() - 1].spec_verdict(sent.last().outcome())
    &&& result is Ok ==> sent.len() == plan.len()
}

/// Whether `sent` is the record of the write of `run` with its style, and the plain
/// write of its text behind it where the styled write failed.
pub open spec fn is_run_write(run: Run, sent: Seq<Sent>) -> bool {
    exists|k: int, result: Result<(), Error>|
        {
            &&& 0 <= k <= sent.len()
            &&& #[trigger] is_attempt(run, sent.take(k), result)
            &&& sent.skip(k) == if result is Err {
                seq![Sent::PlainText(run.text)]
            } else {
                Seq::<Sent>::empty()
            }
        }
}

/// Whether `cuts` parts the record `sent` into the writes of `runs` with their styles:
/// the record of each run lies between one cut and the next.
pub open spec fn is_cut(runs: Seq<Run>, sent: Seq<Sent>, cuts: Seq<int>) -> bool {
    &&& cuts.len() == runs.len() + 1
    &&& cuts[0] == 0
    &&& cuts[runs.len() as int] == sent.len()
    &&& forall|i: int| 0 <= i < runs.len() ==> 0 <= #[trigger] cuts[i] <= cuts[i + 1] <= sent.len()
    &&& forall|i: int|
        0 <= i < runs.len() ==> is_run_write(
            #[trigger] runs[i],
            sent.subrange(cuts[i], cuts[i + 1]),
        )
}

/// Whether `sent` is the record of the writes of `runs` with their styles, one run after
/// the other.
pub open spec fn is_styled_write(runs: Seq<Run>, sent: Seq<Sent>) -> bool {
    exists|cuts: Seq<int>| is_cut(runs, sent, cuts)
}

/// The record of the plain write of `runs`: the text of each run, in their order.
pub open spec fn plain_write(runs: Seq<Run>) -> Seq<Sent> {
    Seq::new(runs.len(), |i: int| Sent::PlainText(runs[i].text))
}

/// Whether `sent` is the record of a write of `runs` that was asked to be styled: the
/// question whether the target can take styles, and then the styled write if it can,
/// the plain write if it cannot.
pub open spec fn is_negotiated_write(runs: Seq<Run>, sent: Seq<Sent>) -> bool {
    &&& sent.len() > 0
    &&& sent[0] matches Sent::CanStyle(can)
    &&& if can {
        is_styled_write(runs, sent.skip(1))
    } else {
        sent.skip(1) == plain_write(runs)
    }
}

/// Whether `sent` is the record of a write of `runs` in `mode`, to a target that is an
/// interactive terminal or is not: that of a write that was asked to be styled where
/// the mode makes it one, and the plain write where it does not.
pub open spec fn is_write(runs: Seq<Run>, mode: WriteMode, is_tty: bool, sent: Seq<Sent>) -> bool {
    if mode.styled(is_tty) {
        is_negotiated_write(runs, sent)
    } else {
        sent == plain_write(runs)
    }
}

} // verus!
