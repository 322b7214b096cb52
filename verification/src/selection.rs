//! Choosing items of a list by their positions.

use vstd::prelude::*;

verus! {

/// Whether `picks` lists, in order and each once, exactly the positions below `n` that `keep`
/// wants.
pub open spec fn is_selection(picks: Seq<int>, n: int, keep: spec_fn(int) -> bool) -> bool {
    &&& forall|i: int| 0 <= i < picks.len() ==> 0 <= #[trigger] picks[i] < n && keep(picks[i])
    &&& forall|i: int, j: int|
        #![trigger picks[i], picks[j]]
        0 <= i < j < picks.len() ==> picks[i] < picks[j]
    &&& forall|k: int| 0 <= k < n && #[trigger] keep(k) ==> picks.contains(k)
}

/// The selection of one more position.
pub proof fn lemma_selection_next(picks: Seq<int>, n: int, keep: spec_fn(int) -> bool)
    requires
        0 <= n,
        is_selection(picks, n, keep),
    ensures
        is_selection(
            if keep(n) {
                picks.push(n)
            } else {
                picks
            },
            n + 1,
            keep,
        ),
{
    let next = if keep(n) {
        picks.push(n)
    } else {
        picks
    };
    assert forall|k: int| 0 <= k < n + 1 && #[trigger] keep(k) implies next.contains(k) by {
        if k < n {
            assert(picks.contains(k));
            let i = choose|i: int| 0 <= i < picks.len() && picks[i] == k;
            assert(next[i] == k);
        } else {
            assert(next[picks.len() as int] == k);
        }
    }
}

/// A selection speaks of the positions below its bound alone.
pub proof fn lemma_selection_same(
    picks: Seq<int>,
    n: int,
    keep: spec_fn(int) -> bool,
    other: spec_fn(int) -> bool,
)
    requires
        is_selection(picks, n, keep),
        forall|k: int| 0 <= k < n ==> #[trigger] keep(k) == other(k),
    ensures
        is_selection(picks, n, other),
{
    assert forall|k: int| 0 <= k < n && #[trigger] other(k) implies picks.contains(k) by {
        assert(keep(k));
    }
}

/// There is nothing to select below zero.
pub proof fn lemma_selection_empty(keep: spec_fn(int) -> bool)
    ensures
        is_selection(Seq::empty(), 0, keep),
{
}

/// Whether `out` consists of the values of `at` at exactly the positions below `n` that `keep`
/// wants, in order.
pub open spec fn chosen<B>(
    out: Seq<B>,
    n: int,
    keep: spec_fn(int) -> bool,
    at: spec_fn(int) -> B,
) -> bool {
    exists|picks: Seq<int>| #[trigger] is_selection(picks, n, keep) && out == picks.map_values(at)
}

/// Nothing is chosen below zero.
pub proof fn lemma_chosen_empty<B>(keep: spec_fn(int) -> bool, at: spec_fn(int) -> B)
    ensures
        chosen(Seq::empty(), 0, keep, at),
{
    lemma_selection_empty(keep);
    assert(Seq::<B>::empty() =~= Seq::<int>::empty().map_values(at));
}

/// What is chosen with one more position.
pub proof fn lemma_chosen_next<B>(
    out: Seq<B>,
    n: int,
    keep: spec_fn(int) -> bool,
    at: spec_fn(int) -> B,
)
    requires
        0 <= n,
        chosen(out, n, keep, at),
    ensures
        chosen(
            if keep(n) {
                out.push(at(n))
            } else {
                out
            },
            n + 1,
            keep,
            at,
        ),
{
    let picks = choose|picks: Seq<int>|
        #[trigger] is_selection(picks, n, keep) && out == picks.map_values(at);
    lemma_selection_next(picks, n, keep);
    if keep(n) {
        assert(out.push(at(n)) =~= picks.push(n).map_values(at));
    }
}

/// A choice speaks of the positions below its bound alone.
pub proof fn lemma_chosen_same<B>(
    out: Seq<B>,
    n: int,
    keep: spec_fn(int) -> bool,
    at: spec_fn(int) -> B,
    other_keep: spec_fn(int) -> bool,
    other_at: spec_fn(int) -> B,
)
    requires
        chosen(out, n, keep, at),
        forall|k: int| 0 <= k < n ==> #[trigger] keep(k) == other_keep(k),
        forall|k: int| 0 <= k < n && keep(k) ==> #[trigger] at(k) == other_at(k),
    ensures
        chosen(out, n, other_keep, other_at),
{
    let picks = choose|picks: Seq<int>|
        #[trigger] is_selection(picks, n, keep) && out == picks.map_values(at);
    lemma_selection_same(picks, n, keep, other_keep);
    assert(out =~= picks.map_values(other_at)) by {
        assert forall|i: int| 0 <= i < picks.len() implies out[i] == other_at(picks[i]) by {
            assert(keep(picks[i]));
            assert(at(picks[i]) == other_at(picks[i]));
        }
    }
}

/// What filtering leaves of a list is chosen from it.
pub proof fn lemma_filter_chosen<A>(items: Seq<A>, p: spec_fn(A) -> bool)
    ensures
        chosen(items.filter(p), items.len() as int, |i: int| p(items[i]), |i: int| items[i]),
    decreases items.len(),
{
    reveal(Seq::filter);
    let keep = |i: int| p(items[i]);
    let at = |i: int| items[i];
    if items.len() == 0 {
        lemma_chosen_empty(keep, at);
        assert(items.filter(p) =~= Seq::empty());
    } else {
        let init = items.drop_last();
        let n = init.len() as int;
        lemma_filter_chosen(init, p);
        lemma_chosen_same(
            init.filter(p),
            n,
            |i: int| p(init[i]),
            |i: int| init[i],
            keep,
            at,
        );
        lemma_chosen_next(init.filter(p), n, keep, at);
    }
}

/// What filtering and mapping leaves of a list is chosen from it.
pub proof fn lemma_filter_map_chosen<A, B>(items: Seq<A>, f: spec_fn(A) -> Option<B>)
    ensures
        chosen(
            items.filter_map(f),
            items.len() as int,
            |i: int| f(items[i]) is Some,
            |i: int| f(items[i])->0,
        ),
    decreases items.len(),
{
    reveal(Seq::filter_map);
    let keep = |i: int| f(items[i]) is Some;
    let at = |i: int| f(items[i])->0;
    if items.len() == 0 {
        lemma_chosen_empty(keep, at);
        assert(items.filter_map(f) =~= Seq::empty());
    } else {
        let init = items.drop_last();
        let n = init.len() as int;
        lemma_filter_map_chosen(init, f);
        lemma_chosen_same(
            init.filter_map(f),
            n,
            |i: int| f(init[i]) is Some,
            |i: int| f(init[i])->0,
            keep,
            at,
        );
        lemma_chosen_next(init.filter_map(f), n, keep, at);
        if keep(n) {
            assert(items.filter_map(f) =~= init.filter_map(f).push(at(n)));
        }
    }
}

/// Whether `item` is the value of `at` at some position below `n` that `keep` wants.
pub open spec fn comes_from<B>(
    item: B,
    n: int,
    keep: spec_fn(int) -> bool,
    at: spec_fn(int) -> B,
) -> bool {
    exists|k: int| 0 <= k < n && #[trigger] keep(k) && at(k) == item
}

/// What is chosen comes from a wanted position, and every wanted position is there.
pub proof fn lemma_chosen_members<B>(
    out: Seq<B>,
    n: int,
    keep: spec_fn(int) -> bool,
    at: spec_fn(int) -> B,
)
    requires
        chosen(out, n, keep, at),
    ensures
        forall|i: int| 0 <= i < out.len() ==> comes_from(#[trigger] out[i], n, keep, at),
        forall|k: int| 0 <= k < n && #[trigger] keep(k) ==> out.contains(at(k)),
{
    let picks = choose|picks: Seq<int>|
        #[trigger] is_selection(picks, n, keep) && out == picks.map_values(at);
    assert forall|i: int| 0 <= i < out.len() implies comes_from(
        #[trigger] out[i],
        n,
        keep,
        at,
    ) by {
        assert(keep(picks[i]) && at(picks[i]) == out[i]);
    }
    assert forall|k: int| 0 <= k < n && #[trigger] keep(k) implies out.contains(at(k)) by {
        assert(picks.contains(k));
        let i = choose|i: int| 0 <= i < picks.len() && picks[i] == k;
        assert(out[i] == at(k));
    }
}

} // verus!
