//! Lemmas on the record of a write.

use vstd::prelude::*;

use crate::output::model::{is_cut, is_run_write, Sent};
use crate::string::model::Run;

verus! {

/// A record that is parted into the writes of `runs`, with the record of the write of
/// one more run behind it, is parted into the writes of all of them by one more cut.
pub proof fn lemma_cut_extends(
    runs: Seq<Run>,
    sent: Seq<Sent>,
    cuts: Seq<int>,
    run: Run,
    more: Seq<Sent>,
)
    requires
        is_cut(runs, sent, cuts),
        is_run_write(run, more),
    ensures
        is_cut(runs.push(run), sent + more, cuts.push((sent.len() + more.len()) as int)),
{
    let all = runs.push(run);
    let whole = sent + more;
    let longer = cuts.push((sent.len() + more.len()) as int);
    assert forall|i: int| 0 <= i < all.len() implies 0 <= #[trigger] longer[i] <= longer[i + 1]
        <= whole.len() by {
        if i < runs.len() {
            assert(longer[i] == cuts[i]);
        }
    }
    assert forall|i: int| 0 <= i < all.len() implies is_run_write(
        #[trigger] all[i],
        whole.subrange(longer[i], longer[i + 1]),
    ) by {
        if i < runs.len() {
            assert(all[i] == runs[i]);
            assert(0 <= cuts[i] <= cuts[i + 1] <= sent.len());
            assert(whole.subrange(cuts[i], cuts[i + 1]) =~= sent.subrange(cuts[i], cuts[i + 1]));
        } else {
            assert(whole.subrange(longer[i], longer[i + 1]) =~= more);
        }
    }
}

} // verus!
