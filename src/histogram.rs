//! Query-duration histograms labelled by worker id and status.

use vstd::prelude::*;

use crate::series::{
    keys_unique, lemma_series_map_dom, lemma_series_map_push, lemma_series_map_update,
    lemma_series_map_value, series_map,
};

verus! {

/// How many duration buckets there are, besides the unbounded one.
pub const DURATION_BUCKET_COUNT: usize = 11;

/// The upper bounds of the duration buckets, in seconds, ascending.
pub open spec fn duration_bounds_secs() -> Seq<u64> {
    seq![1u64, 5, 10, 15, 20, 25, 30, 45, 60, 90, 120]
}

/// The upper bounds of the duration buckets, in seconds, ascending.
pub fn duration_bucket_bounds() -> (r: Vec<u64>)
    ensures
        r@ == duration_bounds_secs(),
        r@.len() == DURATION_BUCKET_COUNT,
{
    let r: Vec<u64> = vec![1, 5, 10, 15, 20, 25, 30, 45, 60, 90, 120];
    assert(r@ =~= duration_bounds_secs());
    r
}

/// Whether a duration of `ms` milliseconds falls in the bucket whose bound is
/// `bound_secs` seconds, that is `ms / 1000 <= bound_secs`.
pub open spec fn within_bound(ms: int, bound_secs: int) -> bool {
    ms <= 1000 * bound_secs
}

/// What one histogram holds: the cumulative count of each bucket, the number
/// of observations and their sum in milliseconds.
pub struct DurationTotals {
    pub buckets: Seq<int>,
    pub count: int,
    pub sum_ms: int,
}

/// A histogram with no observation.
pub open spec fn empty_totals() -> DurationTotals {
    DurationTotals {
        buckets: Seq::new(DURATION_BUCKET_COUNT as nat, |i: int| 0int),
        count: 0,
        sum_ms: 0,
    }
}

/// A histogram after one more observation of `ms` milliseconds: every bucket
/// whose bound is at least the duration counts it, and so do the count and
/// the sum.
pub open spec fn observe(t: DurationTotals, ms: int) -> DurationTotals {
    DurationTotals {
        buckets: Seq::new(
            t.buckets.len(),
            |i: int|
                if within_bound(ms, duration_bounds_secs()[i] as int) {
                    t.buckets[i] + 1
                } else {
                    t.buckets[i]
                },
        ),
        count: t.count + 1,
        sum_ms: t.sum_ms + ms,
    }
}

/// The histogram of `key`, empty where there is none.
pub open spec fn totals_or_empty(
    m: Map<(Seq<char>, Seq<char>), DurationTotals>,
    key: (Seq<char>, Seq<char>),
) -> DurationTotals {
    if m.contains_key(key) {
        m[key]
    } else {
        empty_totals()
    }
}

/// The histogram of one worker id and status.
pub struct DurationSeries {
    pub worker_id: String,
    pub status: String,
    /// Cumulative counts, one for each bound of `duration_bucket_bounds`.
    pub bucket_counts: Vec<u64>,
    pub count: u64,
    pub sum_ms: u64,
}

impl DurationSeries {
    /// The labels of the series.
    pub open spec fn key(&self) -> (Seq<char>, Seq<char>) {
        (self.worker_id@, self.status@)
    }

    /// What the series holds.
    pub open spec fn totals(&self) -> DurationTotals {
        DurationTotals {
            buckets: self.bucket_counts@.map_values(|c: u64| c as int),
            count: self.count as int,
            sum_ms: self.sum_ms as int,
        }
    }

    /// One count for each bucket, none above the number of observations.
    pub open spec fn wf(&self) -> bool {
        &&& self.bucket_counts@.len() == DURATION_BUCKET_COUNT
        &&& forall|i: int| 0 <= i < self.bucket_counts@.len() ==> self.bucket_counts@[i] <= self.count
    }

    /// A copy of the series.
    pub fn copy(&self) -> (r: DurationSeries)
        ensures
            r.key() == self.key(),
            r.totals() == self.totals(),
            self.wf() ==> r.wf(),
    {
        let mut counts: Vec<u64> = Vec::new();
        let mut i: usize = 0;
        while i < self.bucket_counts.len()
            invariant
                0 <= i <= self.bucket_counts@.len(),
                counts@ == self.bucket_counts@.take(i as int),
            decreases self.bucket_counts@.len() - i,
        {
            counts.push(self.bucket_counts[i]);
            assert(counts@ =~= self.bucket_counts@.take(i + 1));
            i += 1;
        }
        assert(counts@ =~= self.bucket_counts@);
        DurationSeries {
            worker_id: self.worker_id.clone(),
            status: self.status.clone(),
            bucket_counts: counts,
            count: self.count,
            sum_ms: self.sum_ms,
        }
    }
}

/// Cumulative bucket counts after one more observation of `ms` milliseconds.
fn counts_after(counts: &Vec<u64>, count: u64, ms: u64) -> (r: Vec<u64>)
    requires
        counts@.len() == DURATION_BUCKET_COUNT,
        count < u64::MAX,
        forall|i: int| 0 <= i < counts@.len() ==> counts@[i] <= count,
    ensures
        r@.map_values(|c: u64| c as int) == observe(
            DurationTotals {
                buckets: counts@.map_values(|c: u64| c as int),
                count: count as int,
                sum_ms: 0,
            },
            ms as int,
        ).buckets,
        r@.len() == DURATION_BUCKET_COUNT,
        forall|i: int| 0 <= i < r@.len() ==> r@[i] <= count + 1,
{
    let bounds = duration_bucket_bounds();
    let mut r: Vec<u64> = Vec::new();
    let mut i: usize = 0;
    while i < counts.len()
        invariant
            0 <= i <= counts@.len(),
            counts@.len() == DURATION_BUCKET_COUNT,
            bounds@ == duration_bounds_secs(),
            forall|j: int| 0 <= j < counts@.len() ==> counts@[j] <= count,
            count < u64::MAX,
            r@.len() == i,
            forall|j: int|
                0 <= j < i ==> r@[j] == if within_bound(ms as int, bounds@[j] as int) {
                    counts@[j] + 1
                } else {
                    counts@[j] as int
                },
        decreases counts@.len() - i,
    {
        if ms <= 1000 * bounds[i] {
            r.push(counts[i] + 1);
        } else {
            r.push(counts[i]);
        }
        i += 1;
    }
    let ghost t = DurationTotals {
        buckets: counts@.map_values(|c: u64| c as int),
        count: count as int,
        sum_ms: 0,
    };
    assert(r@.map_values(|c: u64| c as int) =~= observe(t, ms as int).buckets);
    r
}

/// Histograms labelled by worker id and status, kept in the order in which
/// each pair of labels was first observed. Its view maps each pair of labels
/// to what its histogram holds.
pub struct DurationHistograms {
    entries: Vec<DurationSeries>,
}

impl View for DurationHistograms {
    type V = Map<(Seq<char>, Seq<char>), DurationTotals>;

    open spec fn view(&self) -> Map<(Seq<char>, Seq<char>), DurationTotals> {
        series_map(self.series())
    }
}

impl DurationHistograms {
    /// The series of the family as labels and totals, in order.
    pub closed spec fn series(&self) -> Seq<((Seq<char>, Seq<char>), DurationTotals)> {
        self.entries@.map_values(|e: DurationSeries| (e.key(), e.totals()))
    }

    /// Each pair of labels names at most one series, and each series is well
    /// formed.
    pub closed spec fn wf(&self) -> bool {
        &&& keys_unique(self.series())
        &&& forall|i: int| 0 <= i < self.entries@.len() ==> (#[trigger] self.entries@[i]).wf()
    }

    /// A family with no series.
    pub fn new() -> (r: DurationHistograms)
        ensures
            r.wf(),
            r@ == Map::<(Seq<char>, Seq<char>), DurationTotals>::empty(),
    {
        let r = DurationHistograms { entries: Vec::new() };
        assert(r.series() =~= Seq::empty());
        r
    }

    /// Where the series of `worker_id` and `status` stands, if there is one.
    fn find(&self, worker_id: &String, status: &String) -> (r: Option<usize>)
        ensures
            match r {
                Some(i) => i < self.series().len() && self.series()[i as int].0 == (
                    worker_id@,
                    status@,
                ),
                None => !self@.contains_key((worker_id@, status@)),
            },
    {
        let mut i: usize = 0;
        while i < self.entries.len()
            invariant
                0 <= i <= self.entries@.len(),
                forall|j: int| 0 <= j < i ==> self.series()[j].0 != (worker_id@, status@),
            decreases self.entries@.len() - i,
        {
            if self.entries[i].worker_id == *worker_id && self.entries[i].status == *status {
                return Some(i);
            }
            i += 1;
        }
        proof {
            lemma_series_map_dom(self.series(), (worker_id@, status@));
        }
        None
    }

    /// A copy of the series of `worker_id` and `status`, if there is one.
    pub fn get(&self, worker_id: &str, status: &str) -> (r: Option<DurationSeries>)
        requires
            self.wf(),
        ensures
            r.is_some() == self@.contains_key((worker_id@, status@)),
            r.is_some() ==> r.unwrap().key() == (worker_id@, status@) && r.unwrap().totals()
                == self@[(worker_id@, status@)] && r.unwrap().wf(),
    {
        let w = worker_id.to_owned();
        let s = status.to_owned();
        match self.find(&w, &s) {
            Some(i) => {
                proof {
                    lemma_series_map_value(self.series(), i as int);
                }
                Some(self.entries[i].copy())
            },
            None => None,
        }
    }

    /// Adds an observation of `ms` milliseconds to the histogram of
    /// `worker_id` and `status`, creating it where it is absent.
    pub fn observe(&mut self, worker_id: &str, status: &str, ms: u64)
        requires
            old(self).wf(),
            totals_or_empty(old(self)@, (worker_id@, status@)).count < u64::MAX,
            totals_or_empty(old(self)@, (worker_id@, status@)).sum_ms + ms <= u64::MAX,
        ensures
            final(self).wf(),
            final(self)@ == old(self)@.insert(
                (worker_id@, status@),
                observe(totals_or_empty(old(self)@, (worker_id@, status@)), ms as int),
            ),
    {
        let w = worker_id.to_owned();
        let s = status.to_owned();
        let ghost key = (worker_id@, status@);
        match self.find(&w, &s) {
            Some(i) => {
                proof {
                    lemma_series_map_value(self.series(), i as int);
                    assert(self.entries@[i as int].wf());
                }
                let old_count = self.entries[i].count;
                let counts = counts_after(&self.entries[i].bucket_counts, old_count, ms);
                let e = DurationSeries {
                    worker_id: w,
                    status: s,
                    bucket_counts: counts,
                    count: old_count + 1,
                    sum_ms: self.entries[i].sum_ms + ms,
                };
                let ghost t = e.totals();
                proof {
                    assert(t =~= observe(self@[key], ms as int));
                    lemma_series_map_update(self.series(), i as int, t);
                }
                self.entries[i] = e;
                assert(self.series() =~= old(self).series().update(i as int, (key, t)));
            },
            None => {
                let zeros: Vec<u64> = vec![0, 0, 0, 0, 0, 0, 0, 0, 0, 0, 0];
                assert(zeros@.map_values(|c: u64| c as int) =~= empty_totals().buckets);
                let counts = counts_after(&zeros, 0, ms);
                let e = DurationSeries {
                    worker_id: w,
                    status: s,
                    bucket_counts: counts,
                    count: 1,
                    sum_ms: ms,
                };
                let ghost t = e.totals();
                proof {
                    assert(t =~= observe(empty_totals(), ms as int));
                    lemma_series_map_push(self.series(), key, t);
                }
                self.entries.push(e);
                assert(self.series() =~= old(self).series().push((key, t)));
            },
        }
    }

    /// A copy of every series, in order.
    pub fn samples(&self) -> (r: Vec<DurationSeries>)
        requires
            self.wf(),
        ensures
            r@.map_values(|e: DurationSeries| (e.key(), e.totals())) == self.series(),
            keys_unique(self.series()),
            forall|i: int| 0 <= i < r@.len() ==> (#[trigger] r@[i]).wf(),
    {
        let mut r: Vec<DurationSeries> = Vec::new();
        let mut i: usize = 0;
        while i < self.entries.len()
            invariant
                self.wf(),
                0 <= i <= self.entries@.len(),
                r@.len() == i,
                forall|j: int|
                    0 <= j < i ==> (#[trigger] r@[j]).key() == self.entries@[j].key() && r@[j].totals()
                        == self.entries@[j].totals() && r@[j].wf(),
            decreases self.entries@.len() - i,
        {
            assert(self.entries@[i as int].wf());
            r.push(self.entries[i].copy());
            i += 1;
        }
        assert(r@.map_values(|e: DurationSeries| (e.key(), e.totals())) =~= self.series());
        r
    }
}

} // verus!
