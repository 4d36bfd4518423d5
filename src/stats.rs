use vstd::prelude::*;
use crate::dec::{
    checked_add, checked_div, checked_mul, checked_sub, dec_add, dec_div, dec_lt_spec, dec_mul, dec_sqrt, dec_sub,
    less_than, sqrt, Dec, DecView,
};
use crate::error::Error;
use crate::join::{all_present, column, fill_column, present_column};
use crate::series::{Contigious, NonContigious};
use crate::time::{Coarsen, TimeRange, TimeResolution};

verus! {

/// Running aggregate of the values seen so far, as representations.
pub struct AccView {
    pub count: nat,
    pub min: DecView,
    pub max: DecView,
    pub sum: DecView,
    pub mean: DecView,
    /// Sum of squared deviations from the mean.
    pub m2: DecView,
}

/// The aggregate of the single value `x`.
pub open spec fn first_acc(x: DecView) -> AccView {
    AccView { count: 1, min: x, max: x, sum: x, mean: x, m2: (0, 0) }
}

/// Welford's update of `a` with the value `x`; `None` when a step overflows.
pub open spec fn step_acc(a: AccView, x: DecView) -> Option<AccView> {
    let n = a.count + 1;
    if n > u64::MAX {
        None
    } else {
        match (dec_add(a.sum, x), dec_sub(x, a.mean)) {
            (Some(sum), Some(delta)) => match dec_div(delta, (n as int, 0nat)) {
                Some(inc) => match dec_add(a.mean, inc) {
                    Some(mean) => match dec_sub(x, mean) {
                        Some(delta2) => match dec_mul(delta, delta2) {
                            Some(sq) => match dec_add(a.m2, sq) {
                                Some(m2) => Some(
                                    AccView {
                                        count: n,
                                        min: if dec_lt_spec(x, a.min) { x } else { a.min },
                                        max: if dec_lt_spec(a.max, x) { x } else { a.max },
                                        sum,
                                        mean,
                                        m2,
                                    },
                                ),
                                None => None,
                            },
                            None => None,
                        },
                        None => None,
                    },
                    None => None,
                },
                None => None,
            },
            _ => None,
        }
    }
}

/// Aggregation state: `None` once a step has overflowed, `Some(None)` before
/// any value, `Some(Some(a))` after values aggregating to `a`.
pub type AggState = Option<Option<AccView>>;

/// Feeds one value to the state `st`.
pub open spec fn push_spec(st: AggState, x: DecView) -> AggState {
    match st {
        None => None,
        Some(None) => Some(Some(first_acc(x))),
        Some(Some(a)) => match step_acc(a, x) {
            Some(b) => Some(Some(b)),
            None => None,
        },
    }
}

/// Feeds `vals`, in order, to the state `st`.
pub open spec fn fold_from(st: AggState, vals: Seq<DecView>) -> AggState
    decreases vals.len(),
{
    if vals.len() == 0 {
        st
    } else {
        push_spec(fold_from(st, vals.drop_last()), vals.last())
    }
}

/// The aggregate of `vals`, fed in order from the start.
pub open spec fn fold_all(vals: Seq<DecView>) -> AggState {
    fold_from(Some(None), vals)
}

/// Representations of the values of `vals`.
pub open spec fn views(vals: Seq<Dec>) -> Seq<DecView> {
    vals.map_values(|d: Dec| d@)
}

/// Representations of the present values of `vals`, in order.
pub open spec fn present(vals: Seq<Option<Dec>>) -> Seq<DecView>
    decreases vals.len(),
{
    if vals.len() == 0 {
        Seq::empty()
    } else {
        match vals.last() {
            Some(d) => present(vals.drop_last()).push(d@),
            None => present(vals.drop_last()),
        }
    }
}

/// The result a reduction of values with aggregation state `st` reports.
pub open spec fn outcome_ok(st: AggState, r: Result<Stats, Error>) -> bool {
    match st {
        None => r == Err::<Stats, Error>(Error::Overflow),
        Some(None) => r == Err::<Stats, Error>(Error::NoData),
        Some(Some(a)) => r matches Ok(s) && s@ == a,
    }
}

/// Aggregate of one or more values: count, minimum, maximum, sum, mean and
/// the sum of squared deviations from the mean.
#[derive(Debug)]
pub struct Stats {
    count: u64,
    min: Dec,
    max: Dec,
    sum: Dec,
    mean: Dec,
    m2: Dec,
}

impl View for Stats {
    type V = AccView;

    closed spec fn view(&self) -> AccView {
        AccView {
            count: self.count as nat,
            min: self.min@,
            max: self.max@,
            sum: self.sum@,
            mean: self.mean@,
            m2: self.m2@,
        }
    }
}

impl Stats {
    fn first(x: Dec) -> (r: Stats)
        ensures
            r@ == first_acc(x@),
    {
        Stats { count: 1, min: x, max: x, sum: x, mean: x, m2: Dec::from_int(0) }
    }

    fn step(&self, x: Dec) -> (r: Option<Stats>)
        ensures
            match r {
                Some(s) => step_acc(self@, x@) == Some(s@),
                None => step_acc(self@, x@) is None,
            },
    {
        if self.count == u64::MAX {
            return None;
        }
        let n = self.count + 1;
        let sum = match checked_add(self.sum, x) {
            Some(v) => v,
            None => return None,
        };
        let delta = match checked_sub(x, self.mean) {
            Some(v) => v,
            None => return None,
        };
        let nd = Dec::new(n as i128, 0).unwrap();
        let inc = match checked_div(delta, nd) {
            Some(v) => v,
            None => return None,
        };
        let mean = match checked_add(self.mean, inc) {
            Some(v) => v,
            None => return None,
        };
        let delta2 = match checked_sub(x, mean) {
            Some(v) => v,
            None => return None,
        };
        let sq = match checked_mul(delta, delta2) {
            Some(v) => v,
            None => return None,
        };
        let m2 = match checked_add(self.m2, sq) {
            Some(v) => v,
            None => return None,
        };
        let min = if less_than(x, self.min) { x } else { self.min };
        let max = if less_than(self.max, x) { x } else { self.max };
        Some(Stats { count: n, min, max, sum, mean, m2 })
    }

    /// Number of values aggregated.
    pub fn count(&self) -> (r: u64)
        ensures
            r == self@.count,
    {
        self.count
    }

    /// Smallest value.
    pub fn min(&self) -> (r: Dec)
        ensures
            r@ == self@.min,
    {
        self.min
    }

    /// Largest value.
    pub fn max(&self) -> (r: Dec)
        ensures
            r@ == self@.max,
    {
        self.max
    }

    /// Sum of the values.
    pub fn sum(&self) -> (r: Dec)
        ensures
            r@ == self@.sum,
    {
        self.sum
    }

    /// Arithmetic mean, by Welford's running update.
    pub fn mean(&self) -> (r: Dec)
        ensures
            r@ == self@.mean,
    {
        self.mean
    }

    /// Sample variance: the sum of squared deviations divided by `count - 1`.
    /// Fails with `NoData` below two values and `Overflow` when the quotient
    /// is not representable.
    pub fn variance(&self) -> (r: Result<Dec, Error>)
        ensures
            self@.count < 2 ==> r == Err::<Dec, Error>(Error::NoData),
            self@.count >= 2 ==> match dec_div(self@.m2, ((self@.count - 1) as int, 0nat)) {
                Some(v) => r matches Ok(d) && d@ == v,
                None => r == Err::<Dec, Error>(Error::Overflow),
            },
    {
        if self.count < 2 {
            return Err(Error::NoData);
        }
        let d = Dec::new((self.count - 1) as i128, 0).unwrap();
        match checked_div(self.m2, d) {
            Some(v) => Ok(v),
            None => Err(Error::Overflow),
        }
    }

    /// Sample standard deviation: the square root of `variance`. Fails as
    /// `variance` does, and with `Overflow` when no root is representable.
    pub fn std_dev(&self) -> (r: Result<Dec, Error>)
        ensures
            self@.count < 2 ==> r == Err::<Dec, Error>(Error::NoData),
            self@.count >= 2 ==> match dec_div(self@.m2, ((self@.count - 1) as int, 0nat)) {
                Some(v) => match dec_sqrt(v) {
                    Some(root) => r matches Ok(d) && d@ == root,
                    None => r == Err::<Dec, Error>(Error::Overflow),
                },
                None => r == Err::<Dec, Error>(Error::Overflow),
            },
    {
        match self.variance() {
            Ok(v) => match sqrt(v) {
                Some(root) => Ok(root),
                None => Err(Error::Overflow),
            },
            Err(e) => Err(e),
        }
    }
}

/// An online aggregator: values are fed one at a time.
pub struct Aggregator {
    acc: Option<Stats>,
    overflowed: bool,
}

impl Aggregator {
    pub closed spec fn state(&self) -> AggState {
        if self.overflowed {
            None
        } else {
            match self.acc {
                Some(s) => Some(Some(s@)),
                None => Some(None),
            }
        }
    }

    /// An aggregator that has seen no value.
    pub fn new() -> (r: Aggregator)
        ensures
            r.state() == Some(None::<AccView>),
    {
        Aggregator { acc: None, overflowed: false }
    }

    /// Feeds `x`.
    pub fn push(&mut self, x: Dec)
        ensures
            final(self).state() == push_spec(old(self).state(), x@),
    {
        if self.overflowed {
            return;
        }
        match &self.acc {
            None => {
                self.acc = Some(Stats::first(x));
            },
            Some(s) => {
                match s.step(x) {
                    Some(t) => {
                        self.acc = Some(t);
                    },
                    None => {
                        self.overflowed = true;
                    },
                }
            },
        }
    }

    /// The aggregate so far: `NoData` before any value, `Overflow` once a
    /// step has overflowed.
    pub fn result(&self) -> (r: Result<Stats, Error>)
        ensures
            outcome_ok(self.state(), r),
    {
        if self.overflowed {
            return Err(Error::Overflow);
        }
        match &self.acc {
            None => Err(Error::NoData),
            Some(s) => Ok(
                Stats { count: s.count, min: s.min, max: s.max, sum: s.sum, mean: s.mean, m2: s.m2 },
            ),
        }
    }
}

/// The aggregate of `values`, fed in order.
pub fn summarize(values: &Vec<Dec>) -> (r: Result<Stats, Error>)
    ensures
        outcome_ok(fold_all(views(values@)), r),
{
    let mut agg = Aggregator::new();
    let mut i: usize = 0;
    while i < values.len()
        invariant
            i <= values@.len(),
            agg.state() == fold_all(views(values@).take(i as int)),
        decreases values@.len() - i,
    {
        agg.push(values[i]);
        proof {
            assert(views(values@).take(i + 1).drop_last() =~= views(values@).take(i as int));
        }
        i = i + 1;
    }
    proof { assert(views(values@).take(i as int) =~= views(values@)); }
    agg.result()
}

/// The aggregate of the present values of `values`, fed in order; gaps are
/// skipped.
pub fn summarize_present(values: &Vec<Option<Dec>>) -> (r: Result<Stats, Error>)
    ensures
        outcome_ok(fold_all(present(values@)), r),
{
    let mut agg = Aggregator::new();
    let mut i: usize = 0;
    while i < values.len()
        invariant
            i <= values@.len(),
            agg.state() == fold_all(present(values@.take(i as int))),
        decreases values@.len() - i,
    {
        proof {
            assert(values@.take(i + 1).drop_last() =~= values@.take(i as int));
        }
        match values[i] {
            Some(x) => {
                agg.push(x);
                proof { lemma_online_matches_batch(present(values@.take(i as int)), x@); }
            },
            None => {},
        }
        i = i + 1;
    }
    proof { assert(values@.take(i as int) =~= values@); }
    agg.result()
}

/// Feeding values in two chunks, one after the other, reaches the same state
/// as feeding them all at once.
pub proof fn lemma_fold_chunks(st: AggState, a: Seq<DecView>, b: Seq<DecView>)
    ensures
        fold_from(fold_from(st, a), b) == fold_from(st, a + b),
    decreases b.len(),
{
    if b.len() == 0 {
        assert(a + b =~= a);
    } else {
        lemma_fold_chunks(st, a, b.drop_last());
        assert((a + b).drop_last() =~= a + b.drop_last());
    }
}

/// Feeding the values one at a time to an aggregator reaches the state that
/// reducing the whole buffer reports.
pub proof fn lemma_online_matches_batch(vals: Seq<DecView>, x: DecView)
    ensures
        push_spec(fold_all(vals), x) == fold_all(vals.push(x)),
{
    assert(vals.push(x).drop_last() =~= vals);
}

impl<R: TimeResolution> Contigious<R> {
    /// The aggregate of all values.
    pub fn stats(&self) -> (r: Result<Stats, Error>)
        ensures
            outcome_ok(fold_all(views(self.values())), r),
    {
        summarize(self.data())
    }

    /// The aggregate of the values at the buckets of `range` that lie within
    /// the period; `NoData` when none does.
    pub fn stats_over(&self, range: TimeRange<R>) -> (r: Result<Stats, Error>)
        ensures
            outcome_ok(fold_all(present(column(self.spec_period(), all_present(self.values()), range))), r),
    {
        let col = present_column(self.data());
        let sub = fill_column(self.period(), &col, range);
        summarize_present(&sub)
    }
}

impl<R: TimeResolution> NonContigious<R> {
    /// The aggregate of the present values; gaps are skipped, and a series
    /// of gaps only gives `NoData`.
    pub fn stats(&self) -> (r: Result<Stats, Error>)
        ensures
            outcome_ok(fold_all(present(self.values())), r),
    {
        summarize_present(self.data())
    }

    /// The aggregate of the present values at the buckets of `range`; gaps
    /// and buckets outside the period are skipped.
    pub fn stats_over(&self, range: TimeRange<R>) -> (r: Result<Stats, Error>)
        ensures
            outcome_ok(fold_all(present(column(self.spec_period(), self.values(), range))), r),
    {
        let sub = fill_column(self.period(), self.data(), range);
        summarize_present(&sub)
    }
}

/// The buffer a regrouping pass reads, borrowed from its series.
pub enum Buckets<'data> {
    Dense(&'data Vec<Dec>),
    Gappy(&'data Vec<Option<Dec>>),
}

impl<'data> Buckets<'data> {
    /// Each bucket's value, `None` at gaps.
    pub open spec fn spec_values(&self) -> Seq<Option<Dec>> {
        match self {
            Buckets::Dense(v) => all_present(v@),
            Buckets::Gappy(v) => v@,
        }
    }

    fn len(&self) -> (r: usize)
        ensures
            r == self.spec_values().len(),
    {
        match self {
            Buckets::Dense(v) => v.len(),
            Buckets::Gappy(v) => v.len(),
        }
    }

    fn at(&self, i: usize) -> (r: Option<Dec>)
        requires
            i < self.spec_values().len(),
        ensures
            r == self.spec_values()[i as int],
    {
        match self {
            Buckets::Dense(v) => Some(v[i]),
            Buckets::Gappy(v) => v[i],
        }
    }
}

/// A lazy pass over a series that yields, for each bucket of the coarser
/// resolution `C` in time order, the aggregate of the present values it
/// holds.
pub struct Regroup<'data, R: Coarsen<C>, C: TimeResolution> {
    buckets: Buckets<'data>,
    period: TimeRange<R>,
    position: R,
    next: usize,
    coarse: core::marker::PhantomData<C>,
}

impl<'data, R: Coarsen<C>, C: TimeResolution> Regroup<'data, R, C> {
    /// The values of the series, `None` at gaps.
    pub closed spec fn values(&self) -> Seq<Option<Dec>> {
        self.buckets.spec_values()
    }

    /// The period of the series.
    pub closed spec fn spec_period(&self) -> TimeRange<R> {
        self.period
    }

    /// Index, within the period, of the first bucket not yet grouped.
    pub closed spec fn next_index(&self) -> nat {
        self.next as nat
    }

    pub closed spec fn wf(&self) -> bool {
        &&& self.values().len() == self.period.spec_len()
        &&& self.next <= self.values().len()
        &&& self.next < self.values().len() ==> self.position.ord() == self.period.start_ord() + self.next
    }

    /// The next coarse bucket with the aggregate of its present values
    /// (`NoData` when it holds gaps only), or `None` once the period is
    /// exhausted. The group runs over the buckets from `next_index()` that
    /// share one coarse bucket, as far as the first that does not.
    pub fn next(&mut self) -> (r: Option<(C, Result<Stats, Error>)>)
        requires
            old(self).wf(),
        ensures
            final(self).wf(),
            final(self).values() == old(self).values(),
            final(self).spec_period() == old(self).spec_period(),
            ({
                let n = old(self).values().len();
                let s0 = old(self).spec_period().start_ord();
                let i0 = old(self).next_index();
                let i1 = final(self).next_index();
                &&& i0 == n ==> r is None && i1 == n
                &&& i0 < n ==> (r matches Some(g) && i0 < i1 <= n && (forall|j: int|
                    i0 <= j < i1 ==> #[trigger] R::coarse_ord(s0 + j) == g.0.ord()) && (i1 < n ==> R::coarse_ord(
                    s0 + i1,
                ) != g.0.ord()) && outcome_ok(
                    fold_all(present(old(self).values().subrange(i0 as int, i1 as int))),
                    g.1,
                ))
            }),
    {
        let n = self.buckets.len();
        if self.next >= n {
            return None;
        }
        let c = self.position.coarsen();
        let ci = c.index();
        let ghost i0 = self.next as int;
        let ghost s0 = self.period.start_ord();
        let ghost vals = self.values();
        proof { use_type_invariant(&self.period); }
        let mut agg = Aggregator::new();
        proof {
            assert(vals.subrange(i0, i0) =~= Seq::<Option<Dec>>::empty());
        }
        while self.next < n && self.position.coarsen().index() == ci
            invariant
                n == vals.len(),
                vals == self.values(),
                vals == old(self).values(),
                self.period == old(self).spec_period(),
                s0 == self.period.start_ord(),
                n == self.period.spec_len(),
                self.period.end_ord() <= i64::MAX,
                self.wf(),
                0 <= i0 <= self.next <= n,
                ci == c.ord(),
                self.next == i0 ==> self.position.ord() == s0 + i0,
                forall|j: int| i0 <= j < self.next ==> #[trigger] R::coarse_ord(s0 + j) == c.ord(),
                agg.state() == fold_all(present(vals.subrange(i0, self.next as int))),
            decreases n - self.next,
        {
            proof {
                assert(vals.subrange(i0, self.next + 1).drop_last() =~= vals.subrange(i0, self.next as int));
            }
            match self.buckets.at(self.next) {
                Some(x) => {
                    agg.push(x);
                    proof { lemma_online_matches_batch(present(vals.subrange(i0, self.next as int)), x@); }
                },
                None => {},
            }
            if self.next + 1 < n {
                self.position = self.position.succ();
            }
            self.next = self.next + 1;
        }
        Some((c, agg.result()))
    }
}

impl<R: TimeResolution> Contigious<R> {
    /// Groups the buckets into those of the coarser resolution `C`, lazily.
    pub fn regroup<'data, C: TimeResolution>(&'data self) -> (r: Regroup<'data, R, C>) where R: Coarsen<C>
        ensures
            r.wf(),
            r.values() == all_present(self.values()),
            r.spec_period() == self.spec_period(),
            r.next_index() == 0,
    {
        let period = self.period();
        Regroup {
            buckets: Buckets::Dense(self.data()),
            period,
            position: period.start(),
            next: 0,
            coarse: core::marker::PhantomData,
        }
    }
}

impl<R: TimeResolution> NonContigious<R> {
    /// Groups the buckets into those of the coarser resolution `C`, lazily.
    pub fn regroup<'data, C: TimeResolution>(&'data self) -> (r: Regroup<'data, R, C>) where R: Coarsen<C>
        ensures
            r.wf(),
            r.values() == self.values(),
            r.spec_period() == self.spec_period(),
            r.next_index() == 0,
    {
        let period = self.period();
        Regroup {
            buckets: Buckets::Gappy(self.data()),
            period,
            position: period.start(),
            next: 0,
            coarse: core::marker::PhantomData,
        }
    }
}

} // verus!
