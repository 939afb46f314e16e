//! Laws that relate the registry's operations to one another.

use vstd::prelude::*;

use crate::gauge::value_or_zero;
use crate::registry::{
    after_init_workers, after_new_epoch, after_spend, after_update_allocations, zeroed,
    RegistryView,
};
use crate::series::series_map;

verus! {

/// After workers are set up, each of them has an allocated and a spent gauge,
/// both at zero.
pub proof fn lemma_init_workers_zeroes(r: RegistryView, ids: Seq<Seq<char>>, w: Seq<char>)
    requires
        ids.contains(w),
    ensures
        after_init_workers(r, ids).allocated.contains_key(w),
        after_init_workers(r, ids).allocated[w] == 0,
        after_init_workers(r, ids).spent.contains_key(w),
        after_init_workers(r, ids).spent[w] == 0,
{
    assert(zeroed(ids).contains_key(w));
}

/// Setting up the same workers a second time changes nothing.
pub proof fn lemma_init_workers_idempotent(r: RegistryView, ids: Seq<Seq<char>>)
    ensures
        after_init_workers(after_init_workers(r, ids), ids) == after_init_workers(r, ids),
{
    let once = after_init_workers(r, ids);
    let twice = after_init_workers(once, ids);
    assert(twice.allocated =~= once.allocated);
    assert(twice.spent =~= once.spent);
}

/// After a list of allocations, a worker holds the units of its last
/// allocation in the list.
pub proof fn lemma_allocations_last_write_wins(
    r: RegistryView,
    pairs: Seq<(Seq<char>, int)>,
    i: int,
)
    requires
        0 <= i < pairs.len(),
        forall|j: int| i < j < pairs.len() ==> #[trigger] pairs[j].0 != pairs[i].0,
    ensures
        after_update_allocations(r, pairs).allocated.contains_key(pairs[i].0),
        after_update_allocations(r, pairs).allocated[pairs[i].0] == pairs[i].1,
{
    lemma_last_pair_wins(pairs, i);
}

/// The entry of a key in the map of a list of pairs is its last pair.
proof fn lemma_last_pair_wins<K, V>(pairs: Seq<(K, V)>, i: int)
    requires
        0 <= i < pairs.len(),
        forall|j: int| i < j < pairs.len() ==> #[trigger] pairs[j].0 != pairs[i].0,
    ensures
        series_map(pairs).contains_key(pairs[i].0),
        series_map(pairs)[pairs[i].0] == pairs[i].1,
    decreases pairs.len(),
{
    if i < pairs.len() - 1 {
        let t = pairs.drop_last();
        assert forall|j: int| i < j < t.len() implies #[trigger] t[j].0 != t[i].0 by {
            assert(t[j] == pairs[j]);
        }
        lemma_last_pair_wins(t, i);
        assert(pairs[pairs.len() - 1].0 != pairs[i].0);
    }
}

/// A new epoch followed by a list of allocations leaves exactly those
/// allocations, nothing of the epoch before, no spent units, the new epoch
/// number, and the histograms as they were.
pub proof fn lemma_new_epoch_then_allocations(
    r: RegistryView,
    epoch: int,
    pairs: Seq<(Seq<char>, int)>,
)
    ensures
        after_update_allocations(after_new_epoch(r, epoch), pairs).allocated == series_map(pairs),
        after_update_allocations(after_new_epoch(r, epoch), pairs).spent == Map::<
            Seq<char>,
            int,
        >::empty(),
        after_update_allocations(after_new_epoch(r, epoch), pairs).epoch == epoch,
        after_update_allocations(after_new_epoch(r, epoch), pairs).durations == r.durations,
{
    assert(Map::<Seq<char>, int>::empty().union_prefer_right(series_map(pairs)) =~= series_map(
        pairs,
    ));
}

/// The registry after a run of spends, each a worker id and an amount, in
/// order.
pub open spec fn after_spends(r: RegistryView, spends: Seq<(Seq<char>, int)>) -> RegistryView
    decreases spends.len(),
{
    if spends.len() == 0 {
        r
    } else {
        after_spend(after_spends(r, spends.drop_last()), spends.last().0, spends.last().1)
    }
}

/// The sum of the amounts that worker `w` spends in a run of spends.
pub open spec fn total_spent_by(spends: Seq<(Seq<char>, int)>, w: Seq<char>) -> int
    decreases spends.len(),
{
    if spends.len() == 0 {
        0
    } else {
        total_spent_by(spends.drop_last(), w) + if spends.last().0 == w {
            spends.last().1
        } else {
            0
        }
    }
}

/// Spends accumulate: after a run of spends, a worker's spent gauge is its
/// value before plus the sum of its own amounts, and nothing else changes.
pub proof fn lemma_spends_accumulate(
    r: RegistryView,
    spends: Seq<(Seq<char>, int)>,
    w: Seq<char>,
)
    ensures
        value_or_zero(after_spends(r, spends).spent, w) == value_or_zero(r.spent, w)
            + total_spent_by(spends, w),
        after_spends(r, spends).allocated == r.allocated,
        after_spends(r, spends).durations == r.durations,
        after_spends(r, spends).epoch == r.epoch,
    decreases spends.len(),
{
    if spends.len() > 0 {
        lemma_spends_accumulate(r, spends.drop_last(), w);
    }
}

/// Two spends give the same registry in either order.
pub proof fn lemma_spends_commute(
    r: RegistryView,
    w1: Seq<char>,
    a: int,
    w2: Seq<char>,
    b: int,
)
    ensures
        after_spend(after_spend(r, w1, a), w2, b) == after_spend(after_spend(r, w2, b), w1, a),
{
    let x = after_spend(after_spend(r, w1, a), w2, b);
    let y = after_spend(after_spend(r, w2, b), w1, a);
    assert(x.spent =~= y.spent);
}

} // verus!
