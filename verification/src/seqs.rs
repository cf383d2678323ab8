//! Facts about sequences.

use vstd::prelude::*;

verus! {

/// One element more is kept by a filter where it passes.
pub proof fn lemma_filter_push<A>(all: Seq<A>, x: A, keep: spec_fn(A) -> bool)
    ensures
        all.push(x).filter(keep) == if keep(x) {
            all.filter(keep).push(x)
        } else {
            all.filter(keep)
        },
{
    reveal(Seq::filter);
    assert(all.push(x).drop_last() =~= all);
}

} // verus!
