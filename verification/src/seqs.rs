//! Facts about sequences that the proofs of this library lean on.

use vstd::prelude::*;

verus! {

/// Taking as many elements as there are takes them all.
pub proof fn lemma_take_all<A>(s: Seq<A>)
    ensures
        s.take(s.len() as int) == s,
{
    assert(s.take(s.len() as int) =~= s);
}

/// What one more element does to a filtered sequence.
pub proof fn lemma_filter_push<A>(s: Seq<A>, x: A, keep: spec_fn(A) -> bool)
    ensures
        s.push(x).filter(keep) == if keep(x) {
            s.filter(keep).push(x)
        } else {
            s.filter(keep)
        },
{
    reveal(Seq::filter);
    assert(s.push(x).drop_last() =~= s);
}

/// Two filters give the same whichever is applied first.
pub proof fn lemma_filters_commute<A>(s: Seq<A>, f: spec_fn(A) -> bool, g: spec_fn(A) -> bool)
    ensures
        s.filter(f).filter(g) == s.filter(g).filter(f),
    decreases s.len(),
{
    if s.len() == 0 {
        reveal(Seq::filter);
    } else {
        let rest = s.drop_last();
        let x = s.last();
        assert(s =~= rest.push(x));
        lemma_filters_commute(rest, f, g);
        lemma_filter_push(rest, x, f);
        lemma_filter_push(rest, x, g);
        lemma_filter_push(rest.filter(f), x, g);
        lemma_filter_push(rest.filter(g), x, f);
    }
}

} // verus!
