use vstd::prelude::*;

verus! {

/// A discrete, totally ordered unit of time at a fixed granularity.
///
/// Every value sits at a whole-number position on the timeline of its
/// granularity (`ord`); successor and distance are stated over that position.
pub trait TimeResolution: Copy + Sized {
    /// Position of this bucket on the timeline, in units of the resolution.
    spec fn ord(&self) -> int;

    /// The position as a machine integer.
    fn index(&self) -> (r: i64)
        ensures
            r as int == self.ord(),
    ;

    /// The next bucket at the same granularity.
    fn succ(&self) -> (r: Self)
        requires
            self.ord() < i64::MAX,
        ensures
            r.ord() == self.ord() + 1,
    ;

    /// The previous bucket at the same granularity.
    fn pred(&self) -> (r: Self)
        requires
            self.ord() > i64::MIN,
        ensures
            r.ord() == self.ord() - 1,
    ;

    /// Signed distance, in units, from `self` to `other`.
    fn between(&self, other: &Self) -> (r: i64)
        requires
            i64::MIN <= other.ord() - self.ord() <= i64::MAX,
        ensures
            r as int == other.ord() - self.ord(),
    ;
}

/// One minute, counted from the epoch.
#[derive(Clone, Copy, Debug, PartialEq, Eq, Structural)]
pub struct Minute {
    pub n: i64,
}

/// One hour, counted from the epoch.
#[derive(Clone, Copy, Debug, PartialEq, Eq, Structural)]
pub struct Hour {
    pub n: i64,
}

/// One day, counted from the epoch.
#[derive(Clone, Copy, Debug, PartialEq, Eq, Structural)]
pub struct Day {
    pub n: i64,
}

impl TimeResolution for Minute {
    open spec fn ord(&self) -> int {
        self.n as int
    }

    fn index(&self) -> (r: i64) {
        self.n
    }

    fn succ(&self) -> (r: Self) {
        Minute { n: self.n + 1 }
    }

    fn pred(&self) -> (r: Self) {
        Minute { n: self.n - 1 }
    }

    fn between(&self, other: &Self) -> (r: i64) {
        other.n - self.n
    }
}

impl TimeResolution for Hour {
    open spec fn ord(&self) -> int {
        self.n as int
    }

    fn index(&self) -> (r: i64) {
        self.n
    }

    fn succ(&self) -> (r: Self) {
        Hour { n: self.n + 1 }
    }

    fn pred(&self) -> (r: Self) {
        Hour { n: self.n - 1 }
    }

    fn between(&self, other: &Self) -> (r: i64) {
        other.n - self.n
    }
}

impl TimeResolution for Day {
    open spec fn ord(&self) -> int {
        self.n as int
    }

    fn index(&self) -> (r: i64) {
        self.n
    }

    fn succ(&self) -> (r: Self) {
        Day { n: self.n + 1 }
    }

    fn pred(&self) -> (r: Self) {
        Day { n: self.n - 1 }
    }

    fn between(&self, other: &Self) -> (r: i64) {
        other.n - self.n
    }
}

/// A resolution whose buckets group, in order, into buckets of the coarser
/// resolution `C`.
pub trait Coarsen<C: TimeResolution>: TimeResolution {
    /// Position of the coarse bucket that holds the bucket at position `t`.
    spec fn coarse_ord(t: int) -> int;

    /// The coarse bucket holding this one.
    fn coarsen(&self) -> (r: C)
        ensures
            r.ord() == Self::coarse_ord(self.ord()),
    ;

    /// Later buckets never fall in earlier coarse buckets.
    proof fn lemma_coarse_monotone(a: int, b: int)
        requires
            a <= b,
        ensures
            Self::coarse_ord(a) <= Self::coarse_ord(b),
    ;
}

impl Coarsen<Hour> for Minute {
    open spec fn coarse_ord(t: int) -> int {
        t / 60
    }

    fn coarsen(&self) -> (r: Hour) {
        Hour { n: self.n.checked_div_euclid(60).unwrap() }
    }

    proof fn lemma_coarse_monotone(a: int, b: int) {
        vstd::arithmetic::div_mod::lemma_div_is_ordered(a, b, 60);
    }
}

impl Coarsen<Day> for Minute {
    open spec fn coarse_ord(t: int) -> int {
        t / 1440
    }

    fn coarsen(&self) -> (r: Day) {
        Day { n: self.n.checked_div_euclid(1440).unwrap() }
    }

    proof fn lemma_coarse_monotone(a: int, b: int) {
        vstd::arithmetic::div_mod::lemma_div_is_ordered(a, b, 1440);
    }
}

impl Coarsen<Day> for Hour {
    open spec fn coarse_ord(t: int) -> int {
        t / 24
    }

    fn coarsen(&self) -> (r: Day) {
        Day { n: self.n.checked_div_euclid(24).unwrap() }
    }

    proof fn lemma_coarse_monotone(a: int, b: int) {
        vstd::arithmetic::div_mod::lemma_div_is_ordered(a, b, 24);
    }
}

/// Largest number of buckets a range may span.
pub const MAX_RANGE_LEN: u64 = 4294967295;

/// Relationship between two ranges of the same resolution.
#[derive(Clone, Copy, Debug, PartialEq, Eq, Structural)]
pub enum TimeRangeComparison {
    Equal,
    Superset,
    Subset,
    Overlapping,
    Disjoint,
}

/// Classification of `[s1, e1]` against `[s2, e2]`.
pub open spec fn compare_spec(s1: int, e1: int, s2: int, e2: int) -> TimeRangeComparison {
    if s1 == s2 && e1 == e2 {
        TimeRangeComparison::Equal
    } else if s1 <= s2 && e2 <= e1 {
        TimeRangeComparison::Superset
    } else if s2 <= s1 && e1 <= e2 {
        TimeRangeComparison::Subset
    } else if s1 <= e2 && s2 <= e1 {
        TimeRangeComparison::Overlapping
    } else {
        TimeRangeComparison::Disjoint
    }
}

/// Two closed ranges share a bucket or touch end to start.
pub open spec fn unionable(s1: int, e1: int, s2: int, e2: int) -> bool {
    s1 <= e2 + 1 && s2 <= e1 + 1
}

pub open spec fn min_int(a: int, b: int) -> int {
    if a <= b { a } else { b }
}

pub open spec fn max_int(a: int, b: int) -> int {
    if a >= b { a } else { b }
}

/// A closed, non-empty interval `[start, end]` of buckets, at most
/// `MAX_RANGE_LEN` buckets long.
#[derive(Copy, Debug)]
pub struct TimeRange<R: TimeResolution> {
    start: R,
    end: R,
}

impl<R: TimeResolution> Clone for TimeRange<R> {
    fn clone(&self) -> (r: Self)
        ensures
            r == *self,
    {
        *self
    }
}

impl<R: TimeResolution> TimeRange<R> {
    #[verifier::type_invariant]
    pub open spec fn inv(self) -> bool {
        &&& self.start_ord() <= self.end_ord()
        &&& self.end_ord() - self.start_ord() + 1 <= MAX_RANGE_LEN
        &&& i64::MIN <= self.start_ord() && self.end_ord() <= i64::MAX
    }

    pub closed spec fn start_ord(self) -> int {
        self.start.ord()
    }

    pub closed spec fn end_ord(self) -> int {
        self.end.ord()
    }

    pub open spec fn spec_len(self) -> int {
        self.end_ord() - self.start_ord() + 1
    }

    /// Position of `t` within the range, if it lies in it.
    pub open spec fn spec_index_of(self, t: int) -> Option<int> {
        if self.start_ord() <= t && t <= self.end_ord() {
            Some(t - self.start_ord())
        } else {
            None
        }
    }

    /// The range `[start, end]`; `None` when `start` lies after `end` or the
    /// range would span more than `MAX_RANGE_LEN` buckets.
    pub fn from_start_end(start: R, end: R) -> (r: Option<Self>)
        ensures
            r is Some <==> (start.ord() <= end.ord() && end.ord() - start.ord() + 1 <= MAX_RANGE_LEN),
            r matches Some(range) ==> range.start_ord() == start.ord() && range.end_ord() == end.ord(),
    {
        let s = start.index();
        let e = end.index();
        if s > e {
            return None;
        }
        if (e as i128) - (s as i128) >= MAX_RANGE_LEN as i128 {
            None
        } else {
            Some(TimeRange { start, end })
        }
    }

    pub fn start(&self) -> (r: R)
        ensures
            r.ord() == self.start_ord(),
    {
        self.start
    }

    pub fn end(&self) -> (r: R)
        ensures
            r.ord() == self.end_ord(),
    {
        self.end
    }

    /// Number of buckets in the range.
    pub fn len(&self) -> (r: usize)
        ensures
            r as int == self.spec_len(),
    {
        proof { use_type_invariant(self); }
        let d = self.start.between(&self.end);
        (d as u64 + 1) as usize
    }

    /// Zero-based position of `t`, or `None` when `t` lies outside the range.
    pub fn index_of(&self, t: R) -> (r: Option<usize>)
        ensures
            r matches Some(i) ==> self.spec_index_of(t.ord()) == Some(i as int),
            r is None ==> self.spec_index_of(t.ord()) is None,
    {
        proof { use_type_invariant(self); }
        let ti = t.index();
        if ti < self.start.index() || ti > self.end.index() {
            None
        } else {
            let d = self.start.between(&t);
            Some(d as usize)
        }
    }

    /// Classifies this range against `other`.
    pub fn compare(&self, other: Self) -> (r: TimeRangeComparison)
        ensures
            r == compare_spec(self.start_ord(), self.end_ord(), other.start_ord(), other.end_ord()),
    {
        let s1 = self.start.index();
        let e1 = self.end.index();
        let s2 = other.start.index();
        let e2 = other.end.index();
        if s1 == s2 && e1 == e2 {
            TimeRangeComparison::Equal
        } else if s1 <= s2 && e2 <= e1 {
            TimeRangeComparison::Superset
        } else if s2 <= s1 && e1 <= e2 {
            TimeRangeComparison::Subset
        } else if s1 <= e2 && s2 <= e1 {
            TimeRangeComparison::Overlapping
        } else {
            TimeRangeComparison::Disjoint
        }
    }

    /// Whether this range strictly encloses `other`.
    pub fn contains(&self, other: Self) -> (r: bool)
        ensures
            r == (compare_spec(self.start_ord(), self.end_ord(), other.start_ord(), other.end_ord())
                == TimeRangeComparison::Superset),
    {
        self.compare(other) == TimeRangeComparison::Superset
    }

    /// The smallest range enclosing both, when they overlap or are adjacent
    /// and the result fits in `MAX_RANGE_LEN` buckets; otherwise `None`.
    pub fn union(&self, other: Self) -> (r: Option<Self>)
        ensures
            r is Some <==> (unionable(self.start_ord(), self.end_ord(), other.start_ord(), other.end_ord())
                && max_int(self.end_ord(), other.end_ord()) - min_int(self.start_ord(), other.start_ord()) + 1
                <= MAX_RANGE_LEN),
            r matches Some(u) ==> u.start_ord() == min_int(self.start_ord(), other.start_ord())
                && u.end_ord() == max_int(self.end_ord(), other.end_ord()),
    {
        proof {
            use_type_invariant(self);
            use_type_invariant(&other);
        }
        let s1 = self.start.index();
        let e1 = self.end.index();
        let s2 = other.start.index();
        let e2 = other.end.index();
        if (s1 as i128) - (e2 as i128) > 1 {
            return None;
        }
        if (s2 as i128) - (e1 as i128) > 1 {
            return None;
        }
        let start = if s1 <= s2 { self.start } else { other.start };
        let end = if e1 >= e2 { self.end } else { other.end };
        Self::from_start_end(start, end)
    }

    /// The buckets shared by both ranges, or `None` when they share none.
    pub fn intersection(&self, other: Self) -> (r: Option<Self>)
        ensures
            r is Some <==> (self.start_ord() <= other.end_ord() && other.start_ord() <= self.end_ord()),
            r matches Some(u) ==> u.start_ord() == max_int(self.start_ord(), other.start_ord())
                && u.end_ord() == min_int(self.end_ord(), other.end_ord()),
    {
        proof {
            use_type_invariant(self);
            use_type_invariant(&other);
        }
        let s1 = self.start.index();
        let e1 = self.end.index();
        let s2 = other.start.index();
        let e2 = other.end.index();
        if s1 > e2 || s2 > e1 {
            return None;
        }
        let start = if s1 >= s2 { self.start } else { other.start };
        let end = if e1 <= e2 { self.end } else { other.end };
        Self::from_start_end(start, end)
    }

    /// The parts of the union of two ranges that one range covers alone:
    /// `earlier` runs from the earlier start to just before the later start,
    /// `later` from just after the earlier end to the later end. A part is
    /// `None` when both ranges start (or end) together, or when it would span
    /// more than `MAX_RANGE_LEN` buckets.
    pub fn difference(&self, other: Self) -> (r: (Option<Self>, Option<Self>))
        ensures
            r.0 is Some <==> (self.start_ord() != other.start_ord() && max_int(self.start_ord(), other.start_ord())
                - min_int(self.start_ord(), other.start_ord()) <= MAX_RANGE_LEN),
            r.0 matches Some(e) ==> e.start_ord() == min_int(self.start_ord(), other.start_ord()) && e.end_ord()
                == max_int(self.start_ord(), other.start_ord()) - 1,
            r.1 is Some <==> (self.end_ord() != other.end_ord() && max_int(self.end_ord(), other.end_ord())
                - min_int(self.end_ord(), other.end_ord()) <= MAX_RANGE_LEN),
            r.1 matches Some(l) ==> l.start_ord() == min_int(self.end_ord(), other.end_ord()) + 1 && l.end_ord()
                == max_int(self.end_ord(), other.end_ord()),
    {
        proof {
            use_type_invariant(self);
            use_type_invariant(&other);
        }
        let s1 = self.start.index();
        let s2 = other.start.index();
        let e1 = self.end.index();
        let e2 = other.end.index();
        let earlier = if s1 < s2 {
            Self::from_start_end(self.start, other.start.pred())
        } else if s2 < s1 {
            Self::from_start_end(other.start, self.start.pred())
        } else {
            None
        };
        let later = if e1 < e2 {
            Self::from_start_end(self.end.succ(), other.end)
        } else if e2 < e1 {
            Self::from_start_end(other.end.succ(), self.end)
        } else {
            None
        };
        (earlier, later)
    }
}

/// Comparison is antisymmetric: `a` encloses `b` exactly when `b` lies
/// within `a`, and every range is equal to itself.
pub proof fn lemma_compare_antisymmetric<R: TimeResolution>(a: TimeRange<R>, b: TimeRange<R>)
    ensures
        (compare_spec(a.start_ord(), a.end_ord(), b.start_ord(), b.end_ord()) == TimeRangeComparison::Superset)
            <==> (compare_spec(b.start_ord(), b.end_ord(), a.start_ord(), a.end_ord())
            == TimeRangeComparison::Subset),
        compare_spec(a.start_ord(), a.end_ord(), a.start_ord(), a.end_ord()) == TimeRangeComparison::Equal,
{
}

} // verus!
