//! Laws of styled writes: what a target receives when it answers every request with
//! success, and what it does not receive after a failure.

use vstd::prelude::*;

use crate::error::Error;
use crate::output::model::{is_attempt, run_plan, step_sent, Sent};
use crate::output::TermOp;
use crate::string::model::Run;
use crate::style::model::held;

verus! {

/// A styled write whose requests all succeed sends every step of the run: a reset, one
/// request for each attribute that the style holds, the text, and a closing reset; and
/// it succeeds.
pub proof fn law_attempt_succeeds(run: Run, sent: Seq<Sent>, result: Result<(), Error>)
    requires
        is_attempt(run, sent, result),
        forall|i: int| 0 <= i < sent.len() ==> (#[trigger] sent[i]).outcome() is Ok,
    ensures
        result is Ok,
        sent.len() == held(run.style.slots()).len() + 3,
        sent == Seq::new(
            run_plan(run).len(),
            |i: int| step_sent(run_plan(run)[i], run.text, Ok(())),
        ),
{
    let plan = run_plan(run);
    assert(sent.last() == sent[sent.len() - 1]);
    assert(sent.last().outcome() is Ok);
    assert forall|i: int| 0 <= i < sent.len() implies sent[i] == step_sent(
        plan[i],
        run.text,
        Ok(()),
    ) by {
        assert(sent[i].outcome() is Ok);
        assert(sent[i].outcome()->Ok_0 == ());
        assert(sent[i].outcome() == Ok::<(), Error>(()));
    }
    assert(sent =~= Seq::new(plan.len(), |i: int| step_sent(plan[i], run.text, Ok(()))));
}

/// A styled write that fails has failed in its last request, which was a required one;
/// if that was not the request for the text, the text was not sent.
pub proof fn law_attempt_fails(run: Run, sent: Seq<Sent>, result: Result<(), Error>)
    requires
        is_attempt(run, sent, result),
        result is Err,
    ensures
        sent.last().outcome() == result,
        run_plan(run)[sent.len() - 1].required,
        forall|i: int| 0 <= i < sent.len() - 1 ==> (#[trigger] sent[i]).outcome() is Ok,
        run_plan(run)[sent.len() - 1].op != TermOp::Text ==> forall|i: int|
            0 <= i < sent.len() ==> !((#[trigger] sent[i]) is StyledText),
{
    let plan = run_plan(run);
    let n = held(run.style.slots()).len() as int;
    assert forall|i: int| 0 <= i < sent.len() - 1 implies (#[trigger] sent[i]).outcome() is Ok by {
        assert(plan[i].spec_verdict(sent[i].outcome()) is Ok);
        assert(plan[i].required);
    }
    if plan[sent.len() - 1].op != TermOp::Text {
        assert forall|i: int| 0 <= i < sent.len() implies !((#[trigger] sent[i]) is StyledText) by {
            assert(sent[i] == step_sent(plan[i], run.text, sent[i].outcome()));
            assert(i != n + 1);
        }
    }
}

} // verus!
