//! Styled strings: runs of text, each with its style.

use vstd::prelude::*;

pub mod compose;
pub mod laws;
pub mod lemmas;
pub mod model;

use crate::string::laws::{
    law_append_coalesced, law_append_len, law_append_plain, law_append_text,
    law_style_keeps_text,
};
use crate::string::lemmas::{
    lemma_byte_len_take, lemma_empty_plain, lemma_lead, lemma_purge_step, lemma_take_step,
};
use crate::string::model::{
    appended, byte_len, coalesced, extended, is_blank, lead, plain, purge, restyled, same_style,
    style_merged, text_appended, Run,
};
use crate::style::model::{set_add_all, set_merge, set_or_all, StyleOp};
use crate::style::TermStyle;

verus! {

/// One run of a styled string: a text and the style that it is shown in.
#[derive(Debug)]
pub struct TermStringElement {
    pub style: TermStyle,
    pub text: String,
}

impl View for TermStringElement {
    type V = Run;

    open spec fn view(&self) -> Run {
        Run { style: self.style, text: self.text@ }
    }
}

/// The runs that the elements stand for.
pub open spec fn runs_of(elements: Seq<TermStringElement>) -> Seq<Run> {
    Seq::new(elements.len(), |i: int| elements[i]@)
}

impl TermStringElement {
    /// The run of `text` in `style`.
    pub fn new(style: TermStyle, text: &str) -> (r: Self)
        ensures
            r@ == (Run { style: style, text: text@ }),
    {
        TermStringElement { style, text: String::from_str(text) }
    }

    /// Whether the run is blank: no attribute and no text.
    pub fn is_blank(&self) -> (r: bool)
        ensures
            r == is_blank(self@),
    {
        self.text.as_str().is_empty() && self.style == TermStyle::default()
    }
}

impl Clone for TermStringElement {
    /// A copy of the run.
    fn clone(&self) -> (r: Self)
        ensures
            r@ == self@,
    {
        TermStringElement { style: self.style, text: self.text.clone() }
    }
}

impl Default for TermStringElement {
    /// The blank run: the empty style and no text.
    fn default() -> (r: Self)
        ensures
            r@ == (Run { style: TermStyle::empty(), text: Seq::<char>::empty() }),
    {
        TermStringElement { style: TermStyle::default(), text: String::new() }
    }
}

impl PartialEq for TermStringElement {
    /// Runs are equal when their styles hold the same attributes and their texts are
    /// the same.
    fn eq(&self, other: &Self) -> (r: bool) {
        self.style == other.style && self.text == other.text
    }
}

impl vstd::std_specs::cmp::PartialEqSpecImpl for TermStringElement {
    open spec fn obeys_eq_spec() -> bool {
        true
    }

    open spec fn eq_spec(&self, other: &Self) -> bool {
        self.style@ == other.style@ && self.text@ == other.text@
    }
}

/// A styled string: a sequence of runs.
#[derive(Debug)]
pub struct TermString {
    pub elements: Vec<TermStringElement>,
}

impl View for TermString {
    type V = Seq<Run>;

    open spec fn view(&self) -> Seq<Run> {
        runs_of(self.elements@)
    }
}

impl Clone for TermString {
    /// A copy of the string: the same runs.
    fn clone(&self) -> (r: Self)
        ensures
            r@ == self@,
    {
        let mut elements: Vec<TermStringElement> = Vec::new();
        let mut i: usize = 0;
        while i < self.elements.len()
            invariant
                i <= self.elements.len(),
                elements@.len() == i,
                forall|j: int| 0 <= j < i ==> (#[trigger] elements@[j])@ == self.elements@[j]@,
            decreases self.elements.len() - i,
        {
            elements.push(self.elements[i].clone());
            i += 1;
        }
        let r = TermString { elements };
        proof {
            assert(r@ =~= self@);
        }
        r
    }
}

impl Default for TermString {
    /// The string without runs.
    fn default() -> (r: Self)
        ensures
            r@ == Seq::<Run>::empty(),
    {
        let r = TermString { elements: Vec::new() };
        assert(r@ =~= Seq::<Run>::empty());
        r
    }
}

impl TermString {
    /// The string of one run: `text` in `style`.
    pub fn new(style: TermStyle, text: &str) -> (r: Self)
        ensures
            r@ == seq![Run { style: style, text: text@ }],
            coalesced(r@),
    {
        let mut elements = Vec::with_capacity(128);
        elements.push(TermStringElement::new(style, text));
        let r = TermString { elements };
        assert(r@ =~= seq![Run { style: style, text: text@ }]);
        r
    }

    /// The length of the text, in bytes.
    pub fn len(&self) -> (r: usize)
        requires
            byte_len(self@) <= usize::MAX,
        ensures
            r == byte_len(self@),
    {
        let mut total: usize = 0;
        let mut i: usize = 0;
        while i < self.elements.len()
            invariant
                i <= self.elements.len(),
                total == byte_len(self@.take(i as int)),
                byte_len(self@) <= usize::MAX,
            decreases self.elements.len() - i,
        {
            proof {
                lemma_take_step(self@, i as int);
                lemma_byte_len_take(self@, i + 1);
            }
            total = total + self.elements[i].text.as_str().as_bytes().len();
            i += 1;
        }
        proof {
            assert(self@.take(i as int) =~= self@);
        }
        total
    }

    /// The length of the text in bytes, where a `usize` holds it.
    pub fn checked_len(&self) -> (r: Option<usize>)
        ensures
            match r {
                Some(n) => n == byte_len(self@),
                None => byte_len(self@) > usize::MAX,
            },
    {
        let mut total: usize = 0;
        let mut i: usize = 0;
        while i < self.elements.len()
            invariant
                i <= self.elements.len(),
                total == byte_len(self@.take(i as int)),
            decreases self.elements.len() - i,
        {
            proof {
                lemma_take_step(self@, i as int);
                lemma_byte_len_take(self@, i + 1);
            }
            match total.checked_add(self.elements[i].text.as_str().as_bytes().len()) {
                Some(sum) => {
                    total = sum;
                },
                None => {
                    return None;
                },
            }
            i += 1;
        }
        proof {
            assert(self@.take(i as int) =~= self@);
        }
        Some(total)
    }

    /// Whether the text is empty. A string without text may still have runs.
    pub fn is_empty(&self) -> (r: bool)
        ensures
            r == (plain(self@).len() == 0),
            r == (byte_len(self@) == 0),
    {
        let mut i: usize = 0;
        while i < self.elements.len()
            invariant
                i <= self.elements.len(),
                plain(self@.take(i as int)).len() == 0,
            decreases self.elements.len() - i,
        {
            proof {
                lemma_take_step(self@, i as int);
                lemma_empty_plain(self@);
                lemma_empty_plain(self@.take(i + 1));
                lemma_byte_len_take(self@, i + 1);
            }
            if !self.elements[i].text.as_str().is_empty() {
                return false;
            }
            i += 1;
        }
        proof {
            assert(self@.take(i as int) =~= self@);
            lemma_empty_plain(self@);
        }
        true
    }

    /// The text without the styles.
    pub fn as_string(&self) -> (r: String)
        ensures
            r@ == plain(self@),
    {
        let mut text = String::new();
        let mut i: usize = 0;
        while i < self.elements.len()
            invariant
                i <= self.elements.len(),
                text@ == plain(self@.take(i as int)),
            decreases self.elements.len() - i,
        {
            proof {
                lemma_take_step(self@, i as int);
            }
            text.append(self.elements[i].text.as_str());
            i += 1;
        }
        proof {
            assert(self@.take(i as int) =~= self@);
        }
        text
    }
}

impl TermString {
    /// Removes the blank runs.
    fn purge(&mut self)
        ensures
            final(self)@ == purge(old(self)@),
    {
        let mut i: usize = 0;
        while i < self.elements.len()
            invariant
                i <= self.elements.len() <= old(self).elements.len(),
                self@.take(i as int) == purge(
                    old(self)@.take(i + old(self).elements.len() - self.elements.len()),
                ),
                self@.skip(i as int) == old(self)@.skip(
                    i + old(self).elements.len() - self.elements.len(),
                ),
            decreases self.elements.len() - i,
        {
            let ghost j = i + old(self).elements.len() - self.elements.len();
            let ghost before = self@;
            proof {
                assert(before[i as int] == before.skip(i as int)[0]);
                assert(old(self)@[j] == old(self)@.skip(j)[0]);
                lemma_purge_step(old(self)@, j);
            }
            if self.elements[i].is_blank() {
                self.elements.remove(i);
                proof {
                    assert(self@ =~= before.remove(i as int));
                    assert(self@.take(i as int) =~= before.take(i as int));
                    assert(self@.skip(i as int) =~= before.skip(i as int).skip(1));
                    assert(old(self)@.skip(j + 1) =~= old(self)@.skip(j).skip(1));
                }
            } else {
                proof {
                    assert(before.take(i + 1) =~= before.take(i as int).push(before[i as int]));
                    assert(before.skip(i + 1) =~= before.skip(i as int).skip(1));
                    assert(old(self)@.skip(j + 1) =~= old(self)@.skip(j).skip(1));
                }
                i += 1;
            }
        }
        proof {
            let j = i + old(self).elements.len() - self.elements.len();
            assert(self@.take(i as int) =~= self@);
            assert(self@.skip(i as int).len() == 0);
            assert(old(self)@.skip(j).len() == old(self)@.len() - j);
            assert(old(self)@.take(j) =~= old(self)@);
        }
    }

    /// Appends `other`: both strings lose their blank runs; then the runs at the head of
    /// `other` that have the attributes of the last run give their texts to it, and
    /// the other runs follow unchanged.
    pub fn append_term_str(&mut self, other: TermString)
        ensures
            final(self)@ == appended(old(self)@, other@),
            plain(final(self)@) == plain(old(self)@) + plain(other@),
            byte_len(final(self)@) == byte_len(old(self)@) + byte_len(other@),
            coalesced(old(self)@) && coalesced(other@) ==> coalesced(final(self)@),
    {
        proof {
            law_append_plain(self@, other@);
            law_append_len(self@, other@);
            if coalesced(self@) && coalesced(other@) {
                law_append_coalesced(self@, other@);
            }
        }
        let mut other = other;
        self.purge();
        other.purge();
        let ghost a = self@;
        let ghost b = other@;
        match self.elements.pop() {
            Some(last) => {
                let mut last = last;
                let ghost start = last@;
                assert(start == a.last());
                assert(self@ =~= a.drop_last());
                let mut k: usize = 0;
                loop
                    invariant
                        other@ == b,
                        k <= other.elements.len(),
                        forall|j: int|
                            0 <= j < k ==> same_style((#[trigger] b[j]).style, start.style),
                        last@ == extended(start, plain(b.take(k as int))),
                    ensures
                        k <= other.elements.len(),
                        other@ == b,
                        last@ == extended(start, plain(b.take(k as int))),
                        lead(start.style, b) == k,
                    decreases other.elements.len() - k,
                {
                    if k >= other.elements.len() {
                        proof {
                            lemma_lead(start.style, b, k as int);
                        }
                        break ;
                    }
                    if !(other.elements[k].style == last.style) {
                        proof {
                            lemma_lead(start.style, b, k as int);
                        }
                        break ;
                    }
                    proof {
                        lemma_take_step(b, k as int);
                    }
                    last.text.append(other.elements[k].text.as_str());
                    proof {
                        assert(last@.text =~= start.text + plain(b.take(k + 1)));
                    }
                    k += 1;
                }
                self.elements.push(last);
                let mut rest = other.elements.split_off(k);
                self.elements.append(&mut rest);
                proof {
                    let joined = extended(start, plain(b.take(k as int)));
                    assert(self@ =~= a.drop_last().push(joined) + b.skip(k as int));
                }
            },
            None => {
                self.elements.append(&mut other.elements);
                proof {
                    assert(self@ =~= b);
                }
            },
        }
    }

    /// Appends `other`: another name of `append_term_str`.
    pub fn append(&mut self, other: TermString)
        ensures
            final(self)@ == appended(old(self)@, other@),
            plain(final(self)@) == plain(old(self)@) + plain(other@),
            byte_len(final(self)@) == byte_len(old(self)@) + byte_len(other@),
            coalesced(old(self)@) && coalesced(other@) ==> coalesced(final(self)@),
    {
        self.append_term_str(other);
    }

    /// Appends `text` to the last run, whose style it takes. A string without runs gets
    /// a run of the empty style, unless `text` is empty.
    pub fn append_str(&mut self, text: &str)
        ensures
            final(self)@ == text_appended(old(self)@, text@),
            plain(final(self)@) == plain(old(self)@) + text@,
            coalesced(old(self)@) ==> coalesced(final(self)@),
    {
        proof {
            law_append_text(self@, text@);
        }
        match self.elements.pop() {
            Some(last) => {
                let ghost a = old(self)@;
                let mut last = last;
                assert(self@ =~= a.drop_last());
                last.text.append(text);
                self.elements.push(last);
                proof {
                    assert(self@ =~= a.drop_last().push(extended(a.last(), text@)));
                }
            },
            None => {
                let other = TermString::new(TermStyle::default(), text);
                proof {
                    let run = Run { style: TermStyle::empty(), text: text@ };
                    assert(old(self)@ =~= Seq::<Run>::empty());
                    assert(purge(old(self)@) =~= Seq::<Run>::empty());
                    assert(seq![run].drop_last() =~= Seq::<Run>::empty());
                    assert(purge(seq![run]) =~= if is_blank(run) {
                        Seq::<Run>::empty()
                    } else {
                        seq![run]
                    });
                }
                self.append_term_str(other);
            },
        }
    }
}

impl TermString {
    /// Gives every run the style `style`. Neighbours then have the same attributes: the
    /// runs are not joined.
    pub fn set_style(&mut self, style: TermStyle)
        ensures
            final(self)@ == restyled(old(self)@, style),
            plain(final(self)@) == plain(old(self)@),
    {
        proof {
            law_style_keeps_text(self@, StyleOp::Add, style);
        }
        let mut i: usize = 0;
        while i < self.elements.len()
            invariant
                i <= self.elements.len(),
                self.elements.len() == old(self).elements.len(),
                forall|j: int|
                    0 <= j < i ==> (#[trigger] self.elements@[j])@ == restyled(
                        old(self)@,
                        style,
                    )[j],
                forall|j: int|
                    i <= j < self.elements.len() ==> (#[trigger] self.elements@[j]) == old(
                        self,
                    ).elements@[j],
            decreases self.elements.len() - i,
        {
            let ghost before = self.elements@;
            self.elements[i].style = style;
            proof {
                assert(self.elements@ == before.update(
                    i as int,
                    TermStringElement { style: style, text: before[i as int].text },
                ));
            }
            i += 1;
        }
        proof {
            assert(self@ =~= restyled(old(self)@, style));
        }
    }
}

impl TermString {
    /// Applies `op` to the style of every run, with the attributes of `style`.
    fn merge_style(&mut self, op: StyleOp, style: TermStyle)
        ensures
            final(self)@ == style_merged(old(self)@, op, style),
            plain(final(self)@) == plain(old(self)@),
            forall|i: int|
                0 <= i < old(self)@.len() ==> (#[trigger] final(self)@[i]).style@ == set_merge(
                    old(self)@[i].style@,
                    op,
                    style@,
                ),
    {
        proof {
            law_style_keeps_text(self@, op, style);
        }
        let mut i: usize = 0;
        while i < self.elements.len()
            invariant
                i <= self.elements.len(),
                self.elements.len() == old(self).elements.len(),
                forall|j: int|
                    0 <= j < i ==> (#[trigger] self.elements@[j])@ == style_merged(
                        old(self)@,
                        op,
                        style,
                    )[j],
                forall|j: int|
                    0 <= j < i ==> (#[trigger] self.elements@[j]).style@ == set_merge(
                        old(self).elements@[j].style@,
                        op,
                        style@,
                    ),
                forall|j: int|
                    i <= j < self.elements.len() ==> (#[trigger] self.elements@[j]) == old(
                        self,
                    ).elements@[j],
            decreases self.elements.len() - i,
        {
            let ghost before = self.elements@;
            let mut run_style = self.elements[i].style;
            match op {
                StyleOp::Add => run_style.add_style(style),
                StyleOp::Or => run_style.or_style(style),
                StyleOp::UnsetExact => run_style.unset_exact_style(style),
                StyleOp::UnsetVariant => run_style.unset_variant_style(style),
            }
            self.elements[i].style = run_style;
            proof {
                assert(self.elements@ == before.update(
                    i as int,
                    TermStringElement { style: run_style, text: before[i as int].text },
                ));
            }
            i += 1;
        }
        proof {
            assert(self@ =~= style_merged(old(self)@, op, style));
            assert forall|i: int| 0 <= i < old(self)@.len() implies (#[trigger] self@[i]).style@
                == set_merge(old(self)@[i].style@, op, style@) by {
                assert(self@[i] == self.elements@[i]@);
            }
        }
    }

    /// Empties the style of every run.
    pub fn reset_style(&mut self)
        ensures
            final(self)@ == restyled(old(self)@, TermStyle::empty()),
            plain(final(self)@) == plain(old(self)@),
    {
        self.set_style(TermStyle::default());
    }

    /// Or-merges `style` into the style of every run: a run keeps its own attribute
    /// where the kinds conflict.
    pub fn or_style(&mut self, style: TermStyle)
        ensures
            final(self)@ == style_merged(old(self)@, StyleOp::Or, style),
            plain(final(self)@) == plain(old(self)@),
            forall|i: int|
                0 <= i < old(self)@.len() ==> (#[trigger] final(self)@[i]).style@ == set_or_all(
                    old(self)@[i].style@,
                    style@,
                ),
    {
        self.merge_style(StyleOp::Or, style);
    }

    /// Add-merges `style` into the style of every run: the attribute of `style` wins
    /// where the kinds conflict.
    pub fn add_style(&mut self, style: TermStyle)
        ensures
            final(self)@ == style_merged(old(self)@, StyleOp::Add, style),
            plain(final(self)@) == plain(old(self)@),
            forall|i: int|
                0 <= i < old(self)@.len() ==> (#[trigger] final(self)@[i]).style@ == set_add_all(
                    old(self)@[i].style@,
                    style@,
                ),
    {
        self.merge_style(StyleOp::Add, style);
    }
}

} // verus!
