//! A family of integer gauges labelled by worker id.

use vstd::prelude::*;

use crate::series::{
    keys_unique, lemma_series_map_dom, lemma_series_map_push, lemma_series_map_update,
    lemma_series_map_value, series_map,
};

verus! {

/// The value of a worker's gauge, zero where the worker has none.
pub open spec fn value_or_zero(m: Map<Seq<char>, int>, k: Seq<char>) -> int {
    if m.contains_key(k) {
        m[k]
    } else {
        0
    }
}

/// Gauges labelled by worker id, kept in the order in which each worker was
/// first written. Its view maps each worker id to its value.
pub struct WorkerGauges {
    entries: Vec<(String, u64)>,
}

impl View for WorkerGauges {
    type V = Map<Seq<char>, int>;

    open spec fn view(&self) -> Map<Seq<char>, int> {
        series_map(self.series())
    }
}

impl WorkerGauges {
    /// The series of the family as worker ids and values, in order.
    pub closed spec fn series(&self) -> Seq<(Seq<char>, int)> {
        self.entries@.map_values(|e: (String, u64)| (e.0@, e.1 as int))
    }

    /// Each worker id labels at most one series.
    pub open spec fn wf(&self) -> bool {
        keys_unique(self.series())
    }

    /// A family with no series.
    pub fn new() -> (r: WorkerGauges)
        ensures
            r.wf(),
            r@ == Map::<Seq<char>, int>::empty(),
    {
        let r = WorkerGauges { entries: Vec::new() };
        assert(r.series() =~= Seq::empty());
        r
    }

    /// Where the series of `key` stands, if there is one.
    fn find(&self, key: &String) -> (r: Option<usize>)
        ensures
            match r {
                Some(i) => i < self.series().len() && self.series()[i as int].0 == key@,
                None => !self@.contains_key(key@),
            },
    {
        let mut i: usize = 0;
        while i < self.entries.len()
            invariant
                0 <= i <= self.entries@.len(),
                forall|j: int| 0 <= j < i ==> self.series()[j].0 != key@,
            decreases self.entries@.len() - i,
        {
            if self.entries[i].0 == *key {
                return Some(i);
            }
            i += 1;
        }
        proof {
            lemma_series_map_dom(self.series(), key@);
        }
        None
    }

    /// The value of the series of `key`, if there is one.
    pub fn get(&self, key: &str) -> (r: Option<u64>)
        requires
            self.wf(),
        ensures
            r.is_some() == self@.contains_key(key@),
            r.is_some() ==> r.unwrap() as int == self@[key@],
    {
        let k = key.to_owned();
        match self.find(&k) {
            Some(i) => {
                proof {
                    lemma_series_map_value(self.series(), i as int);
                }
                Some(self.entries[i].1)
            },
            None => None,
        }
    }

    /// Sets the series of `key` to `value`, creating it where it is absent.
    pub fn set(&mut self, key: &str, value: u64)
        requires
            old(self).wf(),
        ensures
            final(self).wf(),
            final(self)@ == old(self)@.insert(key@, value as int),
    {
        let k = key.to_owned();
        match self.find(&k) {
            Some(i) => {
                proof {
                    lemma_series_map_update(self.series(), i as int, value as int);
                }
                self.entries[i] = (k, value);
                assert(self.series() =~= old(self).series().update(
                    i as int,
                    (key@, value as int),
                ));
            },
            None => {
                proof {
                    lemma_series_map_push(self.series(), key@, value as int);
                }
                self.entries.push((k, value));
                assert(self.series() =~= old(self).series().push((key@, value as int)));
            },
        }
    }

    /// Adds `amount` to the series of `key`, creating it at `amount` where it
    /// is absent.
    pub fn add(&mut self, key: &str, amount: u64)
        requires
            old(self).wf(),
            value_or_zero(old(self)@, key@) + amount <= u64::MAX,
        ensures
            final(self).wf(),
            final(self)@ == old(self)@.insert(key@, value_or_zero(old(self)@, key@) + amount),
    {
        let current = match self.get(key) {
            Some(v) => v,
            None => 0,
        };
        self.set(key, current + amount);
    }

    /// Removes every series.
    pub fn clear(&mut self)
        ensures
            final(self).wf(),
            final(self)@ == Map::<Seq<char>, int>::empty(),
    {
        self.entries = Vec::new();
        assert(self.series() =~= Seq::empty());
    }

    /// A copy of every series, in order.
    pub fn samples(&self) -> (r: Vec<(String, u64)>)
        ensures
            r@.map_values(|e: (String, u64)| (e.0@, e.1 as int)) == self.series(),
    {
        let mut r: Vec<(String, u64)> = Vec::new();
        let mut i: usize = 0;
        while i < self.entries.len()
            invariant
                0 <= i <= self.entries@.len(),
                r@.len() == i,
                forall|j: int|
                    0 <= j < i ==> r@[j].0@ == self.entries@[j].0@ && r@[j].1
                        == self.entries@[j].1,
            decreases self.entries@.len() - i,
        {
            let e = &self.entries[i];
            r.push((e.0.clone(), e.1));
            i += 1;
        }
        assert(r@.map_values(|e: (String, u64)| (e.0@, e.1 as int)) =~= self.series());
        r
    }
}

} // verus!
