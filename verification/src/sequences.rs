//! Facts about filtering and mapping sequences.

use vstd::prelude::*;

verus! {

/// What filtering the first `k + 1` items gives, from what filtering the
/// first `k` gives.
pub proof fn lemma_filter_next<A>(s: Seq<A>, keep: spec_fn(A) -> bool, k: int)
    requires
        0 <= k < s.len(),
    ensures
        s.take(k + 1).filter(keep) == if keep(s[k]) {
            s.take(k).filter(keep).push(s[k])
        } else {
            s.take(k).filter(keep)
        },
{
    reveal(Seq::filter);
    assert(s.take(k + 1).drop_last() =~= s.take(k));
    assert(s.take(k + 1).last() == s[k]);
}

/// Whether `sub` holds items of `full` in the order in which `full` holds
/// them: `at` says where in `full` each item of `sub` stands.
pub open spec fn embeds<A>(sub: Seq<A>, full: Seq<A>, at: Seq<int>) -> bool {
    &&& at.len() == sub.len()
    &&& forall|k: int| 0 <= k < sub.len() ==> 0 <= #[trigger] at[k] < full.len() && sub[k] == full[at[k]]
    &&& forall|k: int, m: int| 0 <= k < m < sub.len() ==> #[trigger] at[k] < #[trigger] at[m]
}

/// Filtering keeps items of the run in their order.
pub proof fn lemma_filter_embeds<A>(s: Seq<A>, keep: spec_fn(A) -> bool) -> (at: Seq<int>)
    ensures
        embeds(s.filter(keep), s, at),
    decreases s.len(),
{
    reveal(Seq::filter);
    if s.len() == 0 {
        Seq::empty()
    } else {
        let front = lemma_filter_embeds(s.drop_last(), keep);
        if keep(s.last()) {
            front.push(s.len() - 1)
        } else {
            front
        }
    }
}

/// Filtering what is already filtered changes nothing.
pub proof fn lemma_filter_twice<A>(s: Seq<A>, keep: spec_fn(A) -> bool)
    ensures
        s.filter(keep).filter(keep) == s.filter(keep),
    decreases s.len(),
{
    reveal(Seq::filter);
    if s.len() > 0 {
        lemma_filter_twice(s.drop_last(), keep);
        if keep(s.last()) {
            let front = s.drop_last().filter(keep);
            assert(front.push(s.last()).drop_last() =~= front);
        }
    }
}

/// Filtering a run with one more item at its end.
pub proof fn lemma_filter_push<A>(s: Seq<A>, x: A, keep: spec_fn(A) -> bool)
    ensures
        s.push(x).filter(keep) == if keep(x) {
            s.filter(keep).push(x)
        } else {
            s.filter(keep)
        },
{
    reveal(Seq::filter);
    assert(s.push(x).drop_last() =~= s);
}

/// Two tests that agree on every item filter alike.
pub proof fn lemma_filter_alike<A>(s: Seq<A>, p: spec_fn(A) -> bool, q: spec_fn(A) -> bool)
    requires
        forall|x: A| #[trigger] p(x) == q(x),
    ensures
        s.filter(p) == s.filter(q),
    decreases s.len(),
{
    reveal(Seq::filter);
    if s.len() > 0 {
        lemma_filter_alike(s.drop_last(), p, q);
    }
}

/// Two filters can be taken in either order.
pub proof fn lemma_filter_swap<A>(s: Seq<A>, p: spec_fn(A) -> bool, q: spec_fn(A) -> bool)
    ensures
        s.filter(p).filter(q) == s.filter(q).filter(p),
    decreases s.len(),
{
    reveal(Seq::filter);
    if s.len() > 0 {
        let front = s.drop_last();
        let x = s.last();
        lemma_filter_swap(front, p, q);
        lemma_filter_push(front.filter(p), x, q);
        lemma_filter_push(front.filter(q), x, p);
    }
}

/// Filtering and changing the items can be done in either order, where the
/// change of an item does not change whether it is kept.
pub proof fn lemma_filter_map<A>(s: Seq<A>, f: spec_fn(A) -> A, keep: spec_fn(A) -> bool)
    requires
        forall|x: A| keep(#[trigger] f(x)) == keep(x),
    ensures
        s.map_values(f).filter(keep) == s.filter(keep).map_values(f),
    decreases s.len(),
{
    reveal(Seq::filter);
    if s.len() == 0 {
        assert(s.map_values(f) =~= Seq::<A>::empty());
        assert(s.filter(keep).map_values(f) =~= Seq::<A>::empty());
    } else {
        let front = s.drop_last();
        let x = s.last();
        lemma_filter_map(front, f, keep);
        assert(s.map_values(f) =~= front.map_values(f).push(f(x)));
        lemma_filter_push(front.map_values(f), f(x), keep);
        if keep(x) {
            assert(front.filter(keep).push(x).map_values(f) =~= front.filter(keep).map_values(
                f,
            ).push(f(x)));
        }
    }
}

} // verus!
