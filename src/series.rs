use vstd::prelude::*;
use crate::dec::Dec;
use crate::error::Error;
use crate::tags::{Tags, TagsView};
use crate::time::{compare_spec, TimeRange, TimeRangeComparison, TimeResolution};

verus! {

/// The value at timeline position `t` of a series over `period` with values
/// `vals`, or `None` when `t` lies outside the period.
pub open spec fn value_at<R: TimeResolution, T>(period: TimeRange<R>, vals: Seq<T>, t: int) -> Option<T> {
    match period.spec_index_of(t) {
        Some(i) => Some(vals[i]),
        None => None,
    }
}

/// What iterating over a series yields: each bucket's position with its value.
pub open spec fn iter_items<R: TimeResolution, T>(period: TimeRange<R>, vals: Seq<T>) -> Seq<(int, T)> {
    Seq::new(vals.len(), |i: int| (period.start_ord() + i, vals[i]))
}

pub open spec fn flatten<T>(o: Option<Option<T>>) -> Option<T> {
    match o {
        Some(Some(v)) => Some(v),
        _ => None,
    }
}

/// Physical storage of a sequence of decimal samples, addressed by position.
pub enum TimeseriesData {
    /// A flat vector, uncompressed.
    Basic(Vec<Dec>),
}

impl TimeseriesData {
    pub open spec fn spec_values(&self) -> Seq<Dec> {
        match self {
            TimeseriesData::Basic(v) => v@,
        }
    }

    /// The sample at position `idx`, or `None` past the end.
    pub fn get(&self, idx: usize) -> (r: Option<Dec>)
        ensures
            r == (if idx < self.spec_values().len() { Some(self.spec_values()[idx as int]) } else { None }),
    {
        match self {
            TimeseriesData::Basic(v) => if idx < v.len() {
                Some(v[idx])
            } else {
                None
            },
        }
    }

    /// Number of samples.
    pub fn len(&self) -> (r: usize)
        ensures
            r == self.spec_values().len(),
    {
        match self {
            TimeseriesData::Basic(v) => v.len(),
        }
    }
}

/// A dense series: exactly one value per bucket of its period.
pub struct Contigious<R: TimeResolution> {
    period: TimeRange<R>,
    tags: Tags,
    data: Vec<Dec>,
}

impl<R: TimeResolution> Contigious<R> {
    #[verifier::type_invariant]
    closed spec fn inv(self) -> bool {
        self.data@.len() == self.period.spec_len()
    }

    pub closed spec fn spec_period(self) -> TimeRange<R> {
        self.period
    }

    pub closed spec fn spec_tags(self) -> TagsView {
        self.tags@
    }

    pub closed spec fn values(self) -> Seq<Dec> {
        self.data@
    }

    /// The series over `period` with `tags` and one value per bucket; fails
    /// when `data` does not hold exactly one value per bucket.
    pub fn from_parts(period: TimeRange<R>, tags: Tags, data: Vec<Dec>) -> (r: Result<Self, Error>)
        ensures
            r is Ok <==> data@.len() == period.spec_len(),
            r matches Ok(s) ==> s.spec_period() == period && s.spec_tags() == tags@ && s.values() == data@,
            r matches Err(e) ==> e == (Error::LengthMismatch { period: period.spec_len() as usize, data: data@.len() as usize }),
    {
        let n = period.len();
        if n == data.len() {
            Ok(Contigious { period, tags, data })
        } else {
            let m = data.len();
            Err(Error::LengthMismatch { period: n, data: m })
        }
    }

    /// The value stored under tag `key`.
    pub fn get_tag(&self, key: &str) -> (r: Option<&String>)
        ensures
            r matches Some(v) ==> crate::tags::tag_lookup(self.spec_tags(), key@) == Some(v@),
            r is None ==> crate::tags::tag_lookup(self.spec_tags(), key@) is None,
    {
        self.tags.get(key)
    }

    pub fn tags(&self) -> (r: &Tags)
        ensures
            r@ == self.spec_tags(),
    {
        &self.tags
    }

    /// The value at `at`; `None` exactly when `at` lies outside the period.
    pub fn get(&self, at: R) -> (r: Option<Dec>)
        ensures
            r == value_at(self.spec_period(), self.values(), at.ord()),
    {
        proof { use_type_invariant(self); }
        match self.period.index_of(at) {
            Some(i) => Some(self.data[i]),
            None => None,
        }
    }

    /// Iterates over every bucket of the period, in time order.
    pub fn iter<'data>(&'data self) -> (r: ContigiousIter<'data, R>)
        ensures
            r.wf(),
            r.series() == *self,
            r.remaining() == self.spec_period().spec_len(),
    {
        proof { use_type_invariant(self); }
        ContigiousIter { data: self, position: self.period.start(), remaining: self.data.len() }
    }

    /// Whether the period strictly encloses `other`.
    pub fn contains(&self, other: TimeRange<R>) -> (r: bool)
        ensures
            r == (compare_spec(self.spec_period().start_ord(), self.spec_period().end_ord(), other.start_ord(), other.end_ord())
                == TimeRangeComparison::Superset),
    {
        self.period.contains(other)
    }

    /// Classifies the period against `other`.
    pub fn compare(&self, other: TimeRange<R>) -> (r: TimeRangeComparison)
        ensures
            r == compare_spec(self.spec_period().start_ord(), self.spec_period().end_ord(), other.start_ord(), other.end_ord()),
    {
        self.period.compare(other)
    }

    pub fn period(&self) -> (r: TimeRange<R>)
        ensures
            r == self.spec_period(),
    {
        self.period
    }

    /// The values in time order.
    pub fn data(&self) -> (r: &Vec<Dec>)
        ensures
            r@ == self.values(),
            r@.len() == self.spec_period().spec_len(),
    {
        proof { use_type_invariant(self); }
        &self.data
    }
}

/// A position-tracking pass over a dense series.
pub struct ContigiousIter<'data, R: TimeResolution> {
    data: &'data Contigious<R>,
    position: R,
    remaining: usize,
}

impl<'data, R: TimeResolution> ContigiousIter<'data, R> {
    pub closed spec fn series(&self) -> Contigious<R> {
        *self.data
    }

    pub closed spec fn remaining(&self) -> nat {
        self.remaining as nat
    }

    /// Index, within the period, of the next item.
    pub open spec fn done(&self) -> int {
        self.series().spec_period().spec_len() - self.remaining()
    }

    pub closed spec fn wf(&self) -> bool {
        &&& self.data.data@.len() == self.data.period.spec_len()
        &&& self.remaining <= self.data.data@.len()
        &&& self.remaining > 0 ==> self.position.ord() == self.data.period.start_ord() + self.done()
    }

    /// A pass over `series` that has already ended.
    pub fn empty(series: &'data Contigious<R>) -> (r: Self)
        ensures
            r.wf(),
            r.series() == *series,
            r.remaining() == 0,
    {
        proof { use_type_invariant(series); }
        ContigiousIter { data: series, position: series.period.end(), remaining: 0 }
    }

    /// The next bucket and its value, or `None` once the period is exhausted.
    pub fn next(&mut self) -> (r: Option<(R, Dec)>)
        requires
            old(self).wf(),
        ensures
            final(self).wf(),
            final(self).series() == old(self).series(),
            old(self).remaining() == 0 ==> r is None && final(self).remaining() == 0,
            old(self).remaining() > 0 ==> final(self).remaining() == old(self).remaining() - 1,
            old(self).remaining() > 0 ==> (r matches Some(item) && (item.0.ord(), item.1)
                == iter_items(old(self).series().spec_period(), old(self).series().values())[old(self).done()]),
    {
        if self.remaining == 0 {
            return None;
        }
        let current = self.position;
        let idx = self.data.data.len() - self.remaining;
        let value = self.data.data[idx];
        if self.remaining > 1 {
            proof {
                use_type_invariant(self.data);
                use_type_invariant(&self.data.period);
            }
            self.position = self.position.succ();
        }
        self.remaining = self.remaining - 1;
        Some((current, value))
    }

    /// Exact number of items left: `(n, Some(n))`.
    pub fn size_hint(&self) -> (r: (usize, Option<usize>))
        ensures
            r.0 == self.remaining() && r.1 == Some(self.remaining() as usize),
    {
        (self.remaining, Some(self.remaining))
    }

    /// Exact number of items left.
    pub fn len(&self) -> (r: usize)
        ensures
            r == self.remaining(),
    {
        self.remaining
    }
}

/// A series that may lack a value at some buckets of its period: `None`
/// marks a bucket with no sample.
pub struct NonContigious<R: TimeResolution> {
    period: TimeRange<R>,
    tags: Tags,
    data: Vec<Option<Dec>>,
}

impl<R: TimeResolution> NonContigious<R> {
    #[verifier::type_invariant]
    closed spec fn inv(self) -> bool {
        self.data@.len() == self.period.spec_len()
    }

    pub closed spec fn spec_period(self) -> TimeRange<R> {
        self.period
    }

    pub closed spec fn spec_tags(self) -> TagsView {
        self.tags@
    }

    pub closed spec fn values(self) -> Seq<Option<Dec>> {
        self.data@
    }

    /// The series over `period` with `tags` and one value per bucket; fails
    /// when `data` does not hold exactly one value per bucket.
    pub fn from_parts(period: TimeRange<R>, tags: Tags, data: Vec<Option<Dec>>) -> (r: Result<Self, Error>)
        ensures
            r is Ok <==> data@.len() == period.spec_len(),
            r matches Ok(s) ==> s.spec_period() == period && s.spec_tags() == tags@ && s.values() == data@,
            r matches Err(e) ==> e == (Error::LengthMismatch { period: period.spec_len() as usize, data: data@.len() as usize }),
    {
        let n = period.len();
        if n == data.len() {
            Ok(NonContigious { period, tags, data })
        } else {
            let m = data.len();
            Err(Error::LengthMismatch { period: n, data: m })
        }
    }

    /// The value stored under tag `key`.
    pub fn get_tag(&self, key: &str) -> (r: Option<&String>)
        ensures
            r matches Some(v) ==> crate::tags::tag_lookup(self.spec_tags(), key@) == Some(v@),
            r is None ==> crate::tags::tag_lookup(self.spec_tags(), key@) is None,
    {
        self.tags.get(key)
    }

    pub fn tags(&self) -> (r: &Tags)
        ensures
            r@ == self.spec_tags(),
    {
        &self.tags
    }

    /// The value at `at`; `None` when `at` lies outside the period or the
    /// bucket holds no sample.
    pub fn get(&self, at: R) -> (r: Option<Dec>)
        ensures
            r == flatten(value_at(self.spec_period(), self.values(), at.ord())),
    {
        proof { use_type_invariant(self); }
        match self.period.index_of(at) {
            Some(i) => self.data[i],
            None => None,
        }
    }

    /// Iterates over every bucket of the period, in time order.
    pub fn iter<'data>(&'data self) -> (r: NonContigiousIter<'data, R>)
        ensures
            r.wf(),
            r.series() == *self,
            r.remaining() == self.spec_period().spec_len(),
    {
        proof { use_type_invariant(self); }
        NonContigiousIter { data: self, position: self.period.start(), remaining: self.data.len() }
    }

    /// Whether the period strictly encloses `other`.
    pub fn contains(&self, other: TimeRange<R>) -> (r: bool)
        ensures
            r == (compare_spec(self.spec_period().start_ord(), self.spec_period().end_ord(), other.start_ord(), other.end_ord())
                == TimeRangeComparison::Superset),
    {
        self.period.contains(other)
    }

    /// Classifies the period against `other`.
    pub fn compare(&self, other: TimeRange<R>) -> (r: TimeRangeComparison)
        ensures
            r == compare_spec(self.spec_period().start_ord(), self.spec_period().end_ord(), other.start_ord(), other.end_ord()),
    {
        self.period.compare(other)
    }

    pub fn period(&self) -> (r: TimeRange<R>)
        ensures
            r == self.spec_period(),
    {
        self.period
    }

    /// The values in time order, `None` at gaps.
    pub fn data(&self) -> (r: &Vec<Option<Dec>>)
        ensures
            r@ == self.values(),
            r@.len() == self.spec_period().spec_len(),
    {
        proof { use_type_invariant(self); }
        &self.data
    }
}

/// A position-tracking pass over a series with gaps.
pub struct NonContigiousIter<'data, R: TimeResolution> {
    data: &'data NonContigious<R>,
    position: R,
    remaining: usize,
}

impl<'data, R: TimeResolution> NonContigiousIter<'data, R> {
    pub closed spec fn series(&self) -> NonContigious<R> {
        *self.data
    }

    pub closed spec fn remaining(&self) -> nat {
        self.remaining as nat
    }

    /// Index, within the period, of the next item.
    pub open spec fn done(&self) -> int {
        self.series().spec_period().spec_len() - self.remaining()
    }

    pub closed spec fn wf(&self) -> bool {
        &&& self.data.data@.len() == self.data.period.spec_len()
        &&& self.remaining <= self.data.data@.len()
        &&& self.remaining > 0 ==> self.position.ord() == self.data.period.start_ord() + self.done()
    }

    /// A pass over `series` that has already ended.
    pub fn empty(series: &'data NonContigious<R>) -> (r: Self)
        ensures
            r.wf(),
            r.series() == *series,
            r.remaining() == 0,
    {
        proof { use_type_invariant(series); }
        NonContigiousIter { data: series, position: series.period.end(), remaining: 0 }
    }

    /// The next bucket and its value, or `None` once the period is exhausted.
    pub fn next(&mut self) -> (r: Option<(R, Option<Dec>)>)
        requires
            old(self).wf(),
        ensures
            final(self).wf(),
            final(self).series() == old(self).series(),
            old(self).remaining() == 0 ==> r is None && final(self).remaining() == 0,
            old(self).remaining() > 0 ==> final(self).remaining() == old(self).remaining() - 1,
            old(self).remaining() > 0 ==> (r matches Some(item) && (item.0.ord(), item.1)
                == iter_items(old(self).series().spec_period(), old(self).series().values())[old(self).done()]),
    {
        if self.remaining == 0 {
            return None;
        }
        let current = self.position;
        let idx = self.data.data.len() - self.remaining;
        let value = self.data.data[idx];
        if self.remaining > 1 {
            proof {
                use_type_invariant(self.data);
                use_type_invariant(&self.data.period);
            }
            self.position = self.position.succ();
        }
        self.remaining = self.remaining - 1;
        Some((current, value))
    }

    /// Exact number of items left: `(n, Some(n))`.
    pub fn size_hint(&self) -> (r: (usize, Option<usize>))
        ensures
            r.0 == self.remaining() && r.1 == Some(self.remaining() as usize),
    {
        (self.remaining, Some(self.remaining))
    }

    /// Exact number of items left.
    pub fn len(&self) -> (r: usize)
        ensures
            r == self.remaining(),
    {
        self.remaining
    }
}

/// Number of buckets that hold a sample.
pub open spec fn count_present(vals: Seq<Option<Dec>>) -> nat {
    vals.filter(|o: Option<Dec>| o is Some).len()
}

/// Reading a bucket of a dense series gives the value stored at the
/// bucket's position in the buffer.
pub proof fn lemma_get_reads_buffer<R: TimeResolution>(s: Contigious<R>, t: int)
    requires
        s.spec_period().spec_index_of(t) is Some,
    ensures
        value_at(s.spec_period(), s.values(), t) == Some(s.values()[s.spec_period().spec_index_of(t)->0]),
{
}

/// Iteration over a period yields one item per bucket, in strictly increasing
/// time order, from the period's start to its end.
pub proof fn lemma_iter_in_order<R: TimeResolution, T>(period: TimeRange<R>, vals: Seq<T>)
    requires
        vals.len() == period.spec_len(),
    ensures
        iter_items(period, vals).len() == period.spec_len(),
        forall|i: int, j: int|
            0 <= i < j < vals.len() ==> #[trigger] iter_items(period, vals)[i].0 < #[trigger] iter_items(period, vals)[j].0,
        vals.len() > 0 ==> iter_items(period, vals)[0].0 == period.start_ord(),
        vals.len() > 0 ==> iter_items(period, vals)[vals.len() - 1].0 == period.end_ord(),
{
}

/// Iteration over a series with gaps yields one item per bucket, and as many
/// present values as the buffer holds.
pub proof fn lemma_iter_keeps_gaps<R: TimeResolution>(period: TimeRange<R>, vals: Seq<Option<Dec>>)
    requires
        vals.len() == period.spec_len(),
    ensures
        iter_items(period, vals).len() == period.spec_len(),
        count_present(iter_items(period, vals).map_values(|p: (int, Option<Dec>)| p.1)) == count_present(vals),
{
    assert(iter_items(period, vals).map_values(|p: (int, Option<Dec>)| p.1) =~= vals);
}

/// Rebuilding a series from the items that iteration yields gives back its
/// values, and the items' times span its period.
pub proof fn lemma_iter_round_trip<R: TimeResolution, T>(period: TimeRange<R>, vals: Seq<T>)
    requires
        vals.len() == period.spec_len(),
    ensures
        iter_items(period, vals).map_values(|p: (int, T)| p.1) == vals,
        vals.len() > 0 ==> iter_items(period, vals)[0].0 == period.start_ord(),
        vals.len() > 0 ==> iter_items(period, vals)[vals.len() - 1].0 == period.end_ord(),
{
    assert(iter_items(period, vals).map_values(|p: (int, T)| p.1) =~= vals);
}

} // verus!
