//! The registry of all instruments and the operations that write and read it.

use vstd::prelude::*;

use crate::gauge::{value_or_zero, WorkerGauges};
use crate::histogram::{
    observe, totals_or_empty, DurationHistograms, DurationSeries, DurationTotals,
};
use crate::series::{keys_unique, lemma_overlay_push, series_map};

verus! {

/// A query that has finished, as the execution side reports it.
pub struct FinishedTask {
    pub worker_id: String,
    /// Short code of the outcome, such as `ok`.
    pub status: String,
    /// How long the query ran, in milliseconds.
    pub exec_time_ms: u64,
}

/// What the registry holds: the allocated and spent compute units of each
/// worker in the current epoch, the query-duration histogram of each worker
/// and status, and the current epoch number.
pub struct RegistryView {
    pub allocated: Map<Seq<char>, int>,
    pub spent: Map<Seq<char>, int>,
    pub durations: Map<(Seq<char>, Seq<char>), DurationTotals>,
    pub epoch: int,
}

/// The instruments of one service, owned by whoever creates them.
pub struct MetricsRegistry {
    allocated: WorkerGauges,
    spent: WorkerGauges,
    durations: DurationHistograms,
    epoch: u32,
}

impl View for MetricsRegistry {
    type V = RegistryView;

    closed spec fn view(&self) -> RegistryView {
        RegistryView {
            allocated: self.allocated@,
            spent: self.spent@,
            durations: self.durations@,
            epoch: self.epoch as int,
        }
    }
}

/// The ids of a list of workers.
pub open spec fn worker_ids(workers: Seq<String>) -> Seq<Seq<char>> {
    workers.map_values(|w: String| w@)
}

/// A zero for each of `ids`.
pub open spec fn zeroed(ids: Seq<Seq<char>>) -> Map<Seq<char>, int> {
    Map::new(|k: Seq<char>| ids.contains(k), |k: Seq<char>| 0int)
}

/// A list of allocations as worker ids and compute units.
pub open spec fn allocation_pairs(a: Seq<(String, u32)>) -> Seq<(Seq<char>, int)> {
    a.map_values(|p: (String, u32)| (p.0@, p.1 as int))
}

/// The registry after `ids` are set up: both gauges of each are zero.
pub open spec fn after_init_workers(r: RegistryView, ids: Seq<Seq<char>>) -> RegistryView {
    RegistryView {
        allocated: r.allocated.union_prefer_right(zeroed(ids)),
        spent: r.spent.union_prefer_right(zeroed(ids)),
        ..r
    }
}

/// The registry after epoch `epoch` begins: no worker has allocated or spent
/// units; the histograms stay.
pub open spec fn after_new_epoch(r: RegistryView, epoch: int) -> RegistryView {
    RegistryView {
        allocated: Map::empty(),
        spent: Map::empty(),
        epoch: epoch,
        ..r
    }
}

/// The registry after each of `pairs` is written, in order, to the allocated
/// gauges.
pub open spec fn after_update_allocations(
    r: RegistryView,
    pairs: Seq<(Seq<char>, int)>,
) -> RegistryView {
    RegistryView { allocated: r.allocated.union_prefer_right(series_map(pairs)), ..r }
}

/// The registry after worker `w` spends `amount` units.
pub open spec fn after_spend(r: RegistryView, w: Seq<char>, amount: int) -> RegistryView {
    RegistryView { spent: r.spent.insert(w, value_or_zero(r.spent, w) + amount), ..r }
}

/// The registry after a query of worker `w` ends with `status` after `ms`
/// milliseconds.
pub open spec fn after_query_finished(
    r: RegistryView,
    w: Seq<char>,
    status: Seq<char>,
    ms: int,
) -> RegistryView {
    RegistryView {
        durations: r.durations.insert((w, status), observe(totals_or_empty(r.durations, (w, status)), ms)),
        ..r
    }
}

/// Whether worker `w` can spend `amount` more units without its gauge leaving
/// the range of `u64`.
pub open spec fn spend_fits(r: RegistryView, w: Seq<char>, amount: int) -> bool {
    value_or_zero(r.spent, w) + amount <= u64::MAX
}

/// Whether a query of worker `w` with `status` lasting `ms` milliseconds can be
/// recorded without its histogram's count or sum leaving the range of `u64`.
pub open spec fn record_fits(r: RegistryView, w: Seq<char>, status: Seq<char>, ms: int) -> bool {
    &&& totals_or_empty(r.durations, (w, status)).count < u64::MAX
    &&& totals_or_empty(r.durations, (w, status)).sum_ms + ms <= u64::MAX
}

impl MetricsRegistry {
    /// Every family is well formed.
    pub closed spec fn wf(&self) -> bool {
        self.allocated.wf() && self.spent.wf() && self.durations.wf()
    }

    /// A registry with no series, at epoch zero.
    pub fn new() -> (r: MetricsRegistry)
        ensures
            r.wf(),
            r@.allocated == Map::<Seq<char>, int>::empty(),
            r@.spent == Map::<Seq<char>, int>::empty(),
            r@.durations == Map::<(Seq<char>, Seq<char>), DurationTotals>::empty(),
            r@.epoch == 0,
    {
        MetricsRegistry {
            allocated: WorkerGauges::new(),
            spent: WorkerGauges::new(),
            durations: DurationHistograms::new(),
            epoch: 0,
        }
    }

    /// The current epoch number.
    pub fn current_epoch(&self) -> (r: u32)
        ensures
            r as int == self@.epoch,
    {
        self.epoch
    }

    /// The units allocated to `worker_id` in this epoch, if it has a gauge.
    pub fn allocated_units(&self, worker_id: &str) -> (r: Option<u64>)
        requires
            self.wf(),
        ensures
            r.is_some() == self@.allocated.contains_key(worker_id@),
            r.is_some() ==> r.unwrap() as int == self@.allocated[worker_id@],
    {
        self.allocated.get(worker_id)
    }

    /// The units that `worker_id` spent in this epoch, if it has a gauge.
    pub fn spent_units(&self, worker_id: &str) -> (r: Option<u64>)
        requires
            self.wf(),
        ensures
            r.is_some() == self@.spent.contains_key(worker_id@),
            r.is_some() ==> r.unwrap() as int == self@.spent[worker_id@],
    {
        self.spent.get(worker_id)
    }

    /// The duration histogram of `worker_id` and `status`, if there is one.
    pub fn query_durations(&self, worker_id: &str, status: &str) -> (r: Option<DurationSeries>)
        requires
            self.wf(),
        ensures
            r.is_some() == self@.durations.contains_key((worker_id@, status@)),
            r.is_some() ==> r.unwrap().key() == (worker_id@, status@) && r.unwrap().totals()
                == self@.durations[(worker_id@, status@)] && r.unwrap().wf(),
    {
        self.durations.get(worker_id, status)
    }
}

/// Sets up the gauges of `workers`: both the allocated and the spent gauge of
/// each become zero, whether or not it had them.
pub fn init_workers(registry: &mut MetricsRegistry, workers: &[String])
    requires
        old(registry).wf(),
    ensures
        final(registry).wf(),
        final(registry)@ == after_init_workers(old(registry)@, worker_ids(workers@)),
{
    let ghost ids = worker_ids(workers@);
    assert(zeroed(ids.take(0)) =~= Map::empty());
    assert(old(registry)@.allocated.union_prefer_right(Map::empty()) =~= old(registry)@.allocated);
    assert(old(registry)@.spent.union_prefer_right(Map::empty()) =~= old(registry)@.spent);
    let mut i: usize = 0;
    while i < workers.len()
        invariant
            0 <= i <= workers@.len(),
            ids == worker_ids(workers@),
            registry.wf(),
            registry@ == after_init_workers(old(registry)@, ids.take(i as int)),
        decreases workers@.len() - i,
    {
        let w = workers[i].as_str();
        registry.allocated.set(w, 0);
        registry.spent.set(w, 0);
        proof {
            let prev = ids.take(i as int);
            let next = ids.take(i + 1);
            assert(next =~= prev.push(w@));
            assert forall|k: Seq<char>| next.contains(k) <==> prev.contains(k) || k == w@ by {
                if next.contains(k) {
                    let j = choose|j: int| 0 <= j < next.len() && next[j] == k;
                    if j < i {
                        assert(prev[j] == k);
                    }
                }
                if prev.contains(k) {
                    let j = choose|j: int| 0 <= j < prev.len() && prev[j] == k;
                    assert(next[j] == k);
                }
                if k == w@ {
                    assert(next[i as int] == k);
                }
            }
            assert(zeroed(next) =~= zeroed(prev).insert(w@, 0));
            assert(registry@.allocated =~= old(registry)@.allocated.union_prefer_right(
                zeroed(next),
            ));
            assert(registry@.spent =~= old(registry)@.spent.union_prefer_right(zeroed(next)));
        }
        i += 1;
    }
    assert(ids.take(workers@.len() as int) =~= ids);
}

/// Begins epoch `epoch`: records its number and removes every allocated and
/// spent gauge. The histograms stay.
pub fn new_epoch(registry: &mut MetricsRegistry, epoch: u32)
    requires
        old(registry).wf(),
    ensures
        final(registry).wf(),
        final(registry)@ == after_new_epoch(old(registry)@, epoch as int),
{
    registry.epoch = epoch;
    registry.allocated.clear();
    registry.spent.clear();
}

/// Writes each allocation, in order, to the allocated gauge of its worker; a
/// later allocation of a worker overrides an earlier one. The spent gauges
/// stay.
pub fn update_allocations(registry: &mut MetricsRegistry, allocations: Vec<(String, u32)>)
    requires
        old(registry).wf(),
    ensures
        final(registry).wf(),
        final(registry)@ == after_update_allocations(
            old(registry)@,
            allocation_pairs(allocations@),
        ),
{
    let ghost pairs = allocation_pairs(allocations@);
    assert(series_map(pairs.take(0)) =~= Map::empty());
    assert(old(registry)@.allocated.union_prefer_right(Map::empty()) =~= old(registry)@.allocated);
    let mut i: usize = 0;
    while i < allocations.len()
        invariant
            0 <= i <= allocations@.len(),
            pairs == allocation_pairs(allocations@),
            registry.wf(),
            registry@ == after_update_allocations(old(registry)@, pairs.take(i as int)),
        decreases allocations@.len() - i,
    {
        let (w, units) = (&allocations[i].0, allocations[i].1);
        registry.allocated.set(w.as_str(), units as u64);
        proof {
            assert(pairs.take(i + 1) =~= pairs.take(i as int).push((w@, units as int)));
            lemma_overlay_push(old(registry)@.allocated, pairs.take(i as int), w@, units as int);
        }
        i += 1;
    }
    assert(pairs.take(allocations@.len() as int) =~= pairs);
}

/// Whether `worker_id` can spend `amount` more units: its spent gauge must
/// stay within `u64`.
pub fn can_spend(registry: &MetricsRegistry, worker_id: &str, amount: u32) -> (r: bool)
    requires
        registry.wf(),
    ensures
        r == spend_fits(registry@, worker_id@, amount as int),
{
    match registry.spent.get(worker_id) {
        Some(v) => v <= u64::MAX - amount as u64,
        None => true,
    }
}

/// Adds `spent_cus` to the spent gauge of `worker_id`, which starts at zero
/// where it is absent.
pub fn spend_comp_units(registry: &mut MetricsRegistry, worker_id: &str, spent_cus: u32)
    requires
        old(registry).wf(),
        spend_fits(old(registry)@, worker_id@, spent_cus as int),
    ensures
        final(registry).wf(),
        final(registry)@ == after_spend(old(registry)@, worker_id@, spent_cus as int),
{
    registry.spent.add(worker_id, spent_cus as u64);
}

/// Whether `task` can be recorded: the count and the sum of its histogram must
/// stay within `u64`.
pub fn can_record(registry: &MetricsRegistry, task: &FinishedTask) -> (r: bool)
    requires
        registry.wf(),
    ensures
        r == record_fits(
            registry@,
            task.worker_id@,
            task.status@,
            task.exec_time_ms as int,
        ),
{
    match registry.durations.get(task.worker_id.as_str(), task.status.as_str()) {
        Some(h) => h.count < u64::MAX && h.sum_ms <= u64::MAX - task.exec_time_ms,
        None => true,
    }
}

/// Records the duration of `task` in the histogram of its worker and status:
/// every bucket whose bound, in seconds, is at least the duration counts it,
/// and so do the count and the sum.
pub fn query_finished(registry: &mut MetricsRegistry, task: &FinishedTask)
    requires
        old(registry).wf(),
        record_fits(old(registry)@, task.worker_id@, task.status@, task.exec_time_ms as int),
    ensures
        final(registry).wf(),
        final(registry)@ == after_query_finished(
            old(registry)@,
            task.worker_id@,
            task.status@,
            task.exec_time_ms as int,
        ),
{
    registry.durations.observe(task.worker_id.as_str(), task.status.as_str(), task.exec_time_ms);
}

} // verus!

verus! {

/// A copy of every series of a registry, as an exposition renders it.
pub struct MetricsSnapshot {
    pub epoch: u32,
    pub allocated: Vec<(String, u64)>,
    pub spent: Vec<(String, u64)>,
    pub durations: Vec<DurationSeries>,
}

/// A list of gauge series as worker ids and values.
pub open spec fn gauge_pairs(v: Seq<(String, u64)>) -> Seq<(Seq<char>, int)> {
    v.map_values(|e: (String, u64)| (e.0@, e.1 as int))
}

/// A list of histogram series as labels and totals.
pub open spec fn duration_pairs(v: Seq<DurationSeries>) -> Seq<
    ((Seq<char>, Seq<char>), DurationTotals),
> {
    v.map_values(|e: DurationSeries| (e.key(), e.totals()))
}

/// Copies every series of the registry: each label set once, with the value
/// that the registry holds for it.
pub fn snapshot(registry: &MetricsRegistry) -> (s: MetricsSnapshot)
    requires
        registry.wf(),
    ensures
        s.epoch as int == registry@.epoch,
        keys_unique(gauge_pairs(s.allocated@)),
        series_map(gauge_pairs(s.allocated@)) == registry@.allocated,
        keys_unique(gauge_pairs(s.spent@)),
        series_map(gauge_pairs(s.spent@)) == registry@.spent,
        keys_unique(duration_pairs(s.durations@)),
        series_map(duration_pairs(s.durations@)) == registry@.durations,
        forall|i: int| 0 <= i < s.durations@.len() ==> (#[trigger] s.durations@[i]).wf(),
{
    MetricsSnapshot {
        epoch: registry.epoch,
        allocated: registry.allocated.samples(),
        spent: registry.spent.samples(),
        durations: registry.durations.samples(),
    }
}

} // verus!
