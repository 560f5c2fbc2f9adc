//! Writing a styled string to a target: what is sent, in which order, and when a run
//! falls back to plain text.

use vstd::prelude::*;

pub mod laws;
pub mod lemmas;
pub mod model;

use crate::attr::Attr;
use crate::error::Error;
use crate::output::lemmas::lemma_cut_extends;
use crate::output::model::{
    is_attempt, is_cut, is_negotiated_write, is_run_write, is_write, plain_write, run_plan,
    step_sent, styled_plan, Sent,
};
use crate::string::{TermString, TermStringElement};

verus! {

/// One request to a terminal.
#[derive(Clone, Copy, Debug, PartialEq, Eq, Structural)]
pub enum TermOp {
    /// Reset every attribute.
    Reset,
    /// Apply one attribute.
    Attr(Attr),
    /// Emit the text of the run.
    Text,
}

/// One step of the styled write of a run: a request, and whether the write is given up
/// when the terminal fails it.
#[derive(Clone, Copy, Debug, PartialEq, Eq, Structural)]
pub struct Step {
    pub op: TermOp,
    pub required: bool,
}

/// How a string is to be written.
#[derive(Clone, Copy, Debug, PartialEq, Eq, Structural)]
pub enum WriteMode {
    /// With styles, whatever the target is.
    Styled,
    /// Without styles.
    Plain,
    /// With styles if the target is an interactive terminal, without them if not.
    Auto,
}

/// One of the two standard streams that a process writes to.
#[derive(Clone, Copy, Debug, PartialEq, Eq, Structural)]
pub enum StdStream {
    /// The standard output.
    Stdout,
    /// The standard error.
    Stderr,
}

/// Asks the system whether the standard output is an interactive terminal, through
/// `isatty::stdout_isatty`. The answer is that of the system at the time of the call:
/// nothing is claimed of it.
#[verifier::external_body]
fn stdout_isatty() -> bool {
    isatty::stdout_isatty()
}

/// Asks the system whether the standard error is an interactive terminal, through
/// `isatty::stderr_isatty`. The answer is that of the system at the time of the call:
/// nothing is claimed of it.
#[verifier::external_body]
fn stderr_isatty() -> bool {
    isatty::stderr_isatty()
}

/// A target of styled writes: a terminal that takes the requests of a styled write, and
/// a plain writer beside it for the runs that the terminal fails.
pub trait TermWrite {
    /// Whether styled writes can be negotiated with the target at all.
    fn can_style(&mut self) -> bool;

    /// Resets every attribute of the terminal.
    fn reset(&mut self) -> Result<(), Error>;

    /// Applies one attribute to the terminal.
    fn attr(&mut self, attr: Attr) -> Result<(), Error>;

    /// Emits `text` through the terminal.
    fn styled_text(&mut self, text: &str) -> Result<(), Error>;

    /// Emits `text` through the plain writer.
    fn plain_text(&mut self, text: &str);
}

impl WriteMode {
    /// Whether a write in this mode is a styled one, for a target that is an
    /// interactive terminal or is not.
    pub open spec fn spec_styled(self, is_tty: bool) -> bool {
        match self {
            WriteMode::Styled => true,
            WriteMode::Plain => false,
            WriteMode::Auto => is_tty,
        }
    }

    /// Whether a write in this mode is a styled one, for a target that is an
    /// interactive terminal or is not.
    #[verifier::when_used_as_spec(spec_styled)]
    pub fn styled(self, is_tty: bool) -> (r: bool)
        ensures
            r == self.spec_styled(is_tty),
    {
        match self {
            WriteMode::Styled => true,
            WriteMode::Plain => false,
            WriteMode::Auto => is_tty,
        }
    }
}

impl WriteMode {
    /// Whether a write in this mode to `stream` is a styled one. For `WriteMode::Auto`
    /// the system is asked, once, whether the stream is an interactive terminal, and its
    /// answer decides; the other modes decide by themselves, and the system is not
    /// asked.
    pub fn styled_on(self, stream: StdStream) -> (r: bool)
        ensures
            self == WriteMode::Styled ==> r,
            self == WriteMode::Plain ==> !r,
            exists|is_tty: bool| r == #[trigger] self.styled(is_tty),
    {
        match self {
            WriteMode::Auto => {
                let is_tty = match stream {
                    StdStream::Stdout => stdout_isatty(),
                    StdStream::Stderr => stderr_isatty(),
                };
                self.styled(is_tty)
            },
            _ => self.styled(false),
        }
    }
}

impl Step {
    /// What a step makes of the answer to its request: the failure of a required step
    /// is the failure of the write, any other answer lets the write go on.
    pub open spec fn spec_verdict(&self, outcome: Result<(), Error>) -> Result<(), Error> {
        if self.required {
            outcome
        } else {
            Ok(())
        }
    }

    /// What a step makes of the answer to its request: the failure of a required step
    /// is the failure of the write, any other answer lets the write go on.
    #[verifier::when_used_as_spec(spec_verdict)]
    pub fn verdict(&self, outcome: Result<(), Error>) -> (r: Result<(), Error>)
        ensures
            r == self.spec_verdict(outcome),
    {
        if self.required {
            outcome
        } else {
            Ok(())
        }
    }
}

/// A target together with the record of what it was sent. Every request goes through
/// the session, which notes it with its answer.
pub struct Session<W> {
    out: W,
    sent: Ghost<Seq<Sent>>,
}

impl<W: TermWrite> Session<W> {
    /// The requests that went to the target so far, each with its answer.
    pub closed spec fn sent(&self) -> Seq<Sent> {
        self.sent@
    }

    /// The target that the session holds, as the requests so far have left it.
    pub closed spec fn target(&self) -> W {
        self.out
    }

    /// A session with `out`, to which nothing was sent yet.
    pub fn new(out: W) -> (r: Self)
        ensures
            r.sent() == Seq::<Sent>::empty(),
            r.target() == out,
    {
        Session { out, sent: Ghost(Seq::empty()) }
    }

    /// Ends the session and hands back the target that it held, as the requests of the
    /// session have left it.
    pub fn into_inner(self) -> (r: W)
        ensures
            r == self.target(),
    {
        self.out
    }

    /// Asks the target whether styled writes can be negotiated with it.
    pub fn can_style(&mut self) -> (r: bool)
        ensures
            final(self).sent() == old(self).sent().push(Sent::CanStyle(r)),
    {
        let r = self.out.can_style();
        self.sent = Ghost(self.sent@.push(Sent::CanStyle(r)));
        r
    }

    /// Resets every attribute of the terminal.
    pub fn reset(&mut self) -> (r: Result<(), Error>)
        ensures
            final(self).sent() == old(self).sent().push(Sent::Reset(r)),
    {
        let r = self.out.reset();
        self.sent = Ghost(self.sent@.push(Sent::Reset(r)));
        r
    }

    /// Applies one attribute to the terminal.
    pub fn attr(&mut self, attr: Attr) -> (r: Result<(), Error>)
        ensures
            final(self).sent() == old(self).sent().push(Sent::Attr(attr, r)),
    {
        let r = self.out.attr(attr);
        self.sent = Ghost(self.sent@.push(Sent::Attr(attr, r)));
        r
    }

    /// Emits `text` through the terminal.
    pub fn styled_text(&mut self, text: &str) -> (r: Result<(), Error>)
        ensures
            final(self).sent() == old(self).sent().push(Sent::StyledText(text@, r)),
    {
        let r = self.out.styled_text(text);
        self.sent = Ghost(self.sent@.push(Sent::StyledText(text@, r)));
        r
    }

    /// Emits `text` through the plain writer.
    pub fn plain_text(&mut self, text: &str)
        ensures
            final(self).sent() == old(self).sent().push(Sent::PlainText(text@)),
    {
        self.out.plain_text(text);
        self.sent = Ghost(self.sent@.push(Sent::PlainText(text@)));
    }

    /// Makes the request of `step` for a run of `text`.
    fn request(&mut self, step: Step, text: &str) -> (r: Result<(), Error>)
        ensures
            final(self).sent() == old(self).sent().push(step_sent(step, text@, r)),
    {
        match step.op {
            TermOp::Reset => self.reset(),
            TermOp::Attr(attr) => self.attr(attr),
            TermOp::Text => self.styled_text(text),
        }
    }
}

impl TermStringElement {
    /// The steps of the styled write of the run: see `styled_plan`.
    pub fn styled_plan(&self) -> (r: Vec<Step>)
        ensures
            r@ == run_plan(self@),
    {
        let attrs = self.style.attrs();
        let mut plan: Vec<Step> = Vec::new();
        plan.push(Step { op: TermOp::Reset, required: true });
        let mut i: usize = 0;
        while i < attrs.len()
            invariant
                i <= attrs.len(),
                plan@.len() == i + 1,
                forall|j: int|
                    0 <= j < plan@.len() ==> (#[trigger] plan@[j]) == styled_plan(attrs@)[j],
            decreases attrs.len() - i,
        {
            plan.push(Step { op: TermOp::Attr(attrs[i]), required: true });
            i += 1;
        }
        plan.push(Step { op: TermOp::Text, required: true });
        plan.push(Step { op: TermOp::Reset, required: false });
        proof {
            assert(plan@ =~= styled_plan(attrs@));
        }
        plan
    }

    /// Sends the steps of the styled write to `out`, each after the one before it did
    /// not end the write, and gives the error of the required step that failed.
    pub fn try_write_styled<W: TermWrite>(&self, out: &mut Session<W>) -> (r: Result<(), Error>)
        ensures
            old(out).sent().is_prefix_of(final(out).sent()),
            is_attempt(self@, final(out).sent().skip(old(out).sent().len() as int), r),
    {
        let plan = self.styled_plan();
        let ghost before = out.sent();
        let mut i: usize = 0;
        while i < plan.len()
            invariant
                i <= plan.len(),
                plan@ == run_plan(self@),
                before == old(out).sent(),
                before.is_prefix_of(out.sent()),
                out.sent().len() == before.len() + i,
                forall|j: int|
                    0 <= j < i ==> (#[trigger] out.sent().skip(before.len() as int)[j])
                        == step_sent(
                        plan@[j],
                        self.text@,
                        out.sent().skip(before.len() as int)[j].outcome(),
                    ),
                forall|j: int|
                    0 <= j < i ==> plan@[j].spec_verdict(
                        (#[trigger] out.sent().skip(before.len() as int)[j]).outcome(),
                    ) is Ok,
            decreases plan.len() - i,
        {
            let step = plan[i];
            let ghost earlier = out.sent().skip(before.len() as int);
            let outcome = out.request(step, self.text.as_str());
            proof {
                let sent = out.sent().skip(before.len() as int);
                assert(sent =~= earlier.push(step_sent(step, self.text@, outcome)));
                assert(sent.last().outcome() == outcome);
                assert(before =~= out.sent().subrange(0, before.len() as int));
            }
            match step.verdict(outcome) {
                Ok(()) => {},
                Err(e) => {
                    return Err(e);
                },
            }
            i += 1;
        }
        Ok(())
    }

    /// Sends the text of the run to the plain writer of `out`.
    pub fn write_plain<W: TermWrite>(&self, out: &mut Session<W>)
        ensures
            final(out).sent() == old(out).sent().push(Sent::PlainText(self.text@)),
    {
        out.plain_text(self.text.as_str());
    }

    /// Writes the run styled; where that fails, writes its text plain. The failure is
    /// not reported.
    pub fn write_styled<W: TermWrite>(&self, out: &mut Session<W>)
        ensures
            old(out).sent().is_prefix_of(final(out).sent()),
            is_run_write(self@, final(out).sent().skip(old(out).sent().len() as int)),
    {
        let ghost before = out.sent();
        let result = self.try_write_styled(out);
        let ghost attempt = out.sent().skip(before.len() as int);
        if result.is_err() {
            self.write_plain(out);
        }
        proof {
            let sent = out.sent().skip(before.len() as int);
            let k = attempt.len() as int;
            assert(sent.take(k) =~= attempt);
            assert(sent.skip(k) =~= if result is Err {
                seq![Sent::PlainText(self.text@)]
            } else {
                Seq::<Sent>::empty()
            });
            assert(is_attempt(self@, sent.take(k), result));
        }
    }
}

impl TermString {
    /// Writes the text of each run to the plain writer of `out`.
    pub fn write_plain<W: TermWrite>(&self, out: &mut Session<W>)
        ensures
            final(out).sent() == old(out).sent() + plain_write(self@),
    {
        let mut i: usize = 0;
        while i < self.elements.len()
            invariant
                i <= self.elements.len(),
                out.sent() == old(out).sent() + plain_write(self@.take(i as int)),
            decreases self.elements.len() - i,
        {
            self.elements[i].write_plain(out);
            proof {
                assert(out.sent() =~= old(out).sent() + plain_write(self@.take(i + 1)));
            }
            i += 1;
        }
        proof {
            assert(self@.take(i as int) =~= self@);
        }
    }

    /// Writes each run styled, and plain where that fails; writes the whole string
    /// plain where styled writes cannot be negotiated with `out`.
    pub fn write_styled<W: TermWrite>(&self, out: &mut Session<W>)
        ensures
            old(out).sent().is_prefix_of(final(out).sent()),
            is_negotiated_write(self@, final(out).sent().skip(old(out).sent().len() as int)),
    {
        let ghost before = out.sent();
        if out.can_style() {
            let ghost start = out.sent();
            let ghost mut cuts: Seq<int> = seq![0];
            let mut i: usize = 0;
            while i < self.elements.len()
                invariant
                    i <= self.elements.len(),
                    start == before.push(Sent::CanStyle(true)),
                    start.is_prefix_of(out.sent()),
                    is_cut(self@.take(i as int), out.sent().skip(start.len() as int), cuts),
                decreases self.elements.len() - i,
            {
                let ghost so_far = out.sent();
                self.elements[i].write_styled(out);
                proof {
                    let earlier = so_far.skip(start.len() as int);
                    let more = out.sent().skip(so_far.len() as int);
                    assert(start =~= so_far.subrange(0, start.len() as int));
                    assert(so_far =~= out.sent().subrange(0, so_far.len() as int));
                    assert(start =~= out.sent().subrange(0, start.len() as int));
                    let run = self.elements[i as int]@;
                    lemma_cut_extends(self@.take(i as int), earlier, cuts, run, more);
                    assert(self@.take(i + 1) =~= self@.take(i as int).push(run));
                    assert(out.sent().skip(start.len() as int) =~= earlier + more);
                    cuts = cuts.push((earlier.len() + more.len()) as int);
                }
                i += 1;
            }
            proof {
                assert(self@.take(i as int) =~= self@);
                let sent = out.sent().skip(before.len() as int);
                assert(start =~= out.sent().subrange(0, start.len() as int));
                assert(out.sent()[before.len() as int] == start[before.len() as int]);
                assert(sent[0] == Sent::CanStyle(true));
                assert(sent.skip(1) =~= out.sent().skip(start.len() as int));
                assert(before =~= out.sent().subrange(0, before.len() as int));
            }
        } else {
            self.write_plain(out);
            proof {
                let sent = out.sent().skip(before.len() as int);
                assert(sent[0] == Sent::CanStyle(false));
                assert(sent.skip(1) =~= plain_write(self@));
            }
        }
    }

    /// Writes the string in `mode`. Whether `out` is an interactive terminal decides
    /// for `WriteMode::Auto`, once for the whole string.
    pub fn write<W: TermWrite>(&self, out: &mut Session<W>, mode: WriteMode, is_tty: bool)
        ensures
            old(out).sent().is_prefix_of(final(out).sent()),
            is_write(self@, mode, is_tty, final(out).sent().skip(old(out).sent().len() as int)),
    {
        if mode.styled(is_tty) {
            self.write_styled(out);
        } else {
            self.write_plain(out);
            proof {
                assert(out.sent().skip(old(out).sent().len() as int) =~= plain_write(self@));
            }
        }
    }

    /// Writes the string in `mode`, and a newline behind it. The newline goes to the
    /// plain writer, whatever the mode.
    pub fn writeln<W: TermWrite>(&self, out: &mut Session<W>, mode: WriteMode, is_tty: bool)
        ensures
            old(out).sent().is_prefix_of(final(out).sent()),
            final(out).sent().last() == Sent::PlainText("\n"@),
            is_write(
                self@,
                mode,
                is_tty,
                final(out).sent().skip(old(out).sent().len() as int).drop_last(),
            ),
    {
        let ghost before = out.sent();
        self.write(out, mode, is_tty);
        let ghost written = out.sent();
        out.plain_text("\n");
        proof {
            assert(before =~= written.subrange(0, before.len() as int));
            assert(before =~= out.sent().subrange(0, before.len() as int));
            assert(out.sent().skip(before.len() as int).drop_last() =~= written.skip(
                before.len() as int,
            ));
        }
    }
}

} // verus!
