use vstd::prelude::*;
use crate::dec::Dec;
use crate::error::Error;
use crate::series::{flatten, value_at, Contigious, NonContigious};
use crate::tags::{Tags, TagsView};
use crate::time::{max_int, min_int, unionable, TimeRange, TimeResolution, MAX_RANGE_LEN};

verus! {

/// How two series combine.
#[derive(Clone, Copy, Debug, PartialEq, Eq, Structural)]
pub enum JoinKind {
    /// Over the buckets both periods share.
    Inner,
    /// Over the union of both periods.
    FullOuter,
    /// Over the left period.
    LeftOuter,
    /// Over the right period.
    RightOuter,
}

/// Bounds `(start, end)` of the period a join of `[s1, e1]` with `[s2, e2]`
/// covers, or `None` when the join has no period.
pub open spec fn join_bounds(kind: JoinKind, s1: int, e1: int, s2: int, e2: int) -> Option<(int, int)> {
    match kind {
        JoinKind::Inner => if s1 <= e2 && s2 <= e1 {
            Some((max_int(s1, s2), min_int(e1, e2)))
        } else {
            None
        },
        JoinKind::FullOuter => if unionable(s1, e1, s2, e2) && max_int(e1, e2) - min_int(s1, s2) + 1
            <= MAX_RANGE_LEN {
            Some((min_int(s1, s2), max_int(e1, e2)))
        } else {
            None
        },
        JoinKind::LeftOuter => Some((s1, e1)),
        JoinKind::RightOuter => Some((s2, e2)),
    }
}

/// The error a join without a period reports: `Overflow` for a full outer
/// join of ranges that overlap or touch but whose union is too long,
/// `Disjoint` otherwise.
pub open spec fn join_error(kind: JoinKind, s1: int, e1: int, s2: int, e2: int) -> Error {
    if kind == JoinKind::FullOuter && unionable(s1, e1, s2, e2) {
        Error::Overflow
    } else {
        Error::Disjoint
    }
}

/// The value a side contributes at position `t`: its sample, or `None` where
/// it has a gap or `t` lies outside its period.
pub open spec fn side_value<R: TimeResolution>(p: TimeRange<R>, vals: Seq<Option<Dec>>, t: int) -> Option<Dec> {
    flatten(value_at(p, vals, t))
}

/// Each bucket of `out` paired with what the side `(p, vals)` holds there.
pub open spec fn column<R: TimeResolution>(p: TimeRange<R>, vals: Seq<Option<Dec>>, out: TimeRange<R>) -> Seq<Option<Dec>> {
    Seq::new(out.spec_len() as nat, |i: int| side_value(p, vals, out.start_ord() + i))
}

/// The values of a dense series, each marked present.
pub open spec fn all_present(vals: Seq<Dec>) -> Seq<Option<Dec>> {
    vals.map_values(|v: Dec| Some(v))
}

/// The result of a join: for each bucket of its period, the left and right
/// value, `None` where that side has none.
pub struct Joined<R: TimeResolution> {
    period: TimeRange<R>,
    tags: Tags,
    left: Vec<Option<Dec>>,
    right: Vec<Option<Dec>>,
}

impl<R: TimeResolution> Joined<R> {
    #[verifier::type_invariant]
    closed spec fn inv(self) -> bool {
        &&& self.left@.len() == self.period.spec_len()
        &&& self.right@.len() == self.period.spec_len()
    }

    pub closed spec fn spec_period(self) -> TimeRange<R> {
        self.period
    }

    pub closed spec fn spec_tags(self) -> TagsView {
        self.tags@
    }

    pub closed spec fn left_values(self) -> Seq<Option<Dec>> {
        self.left@
    }

    pub closed spec fn right_values(self) -> Seq<Option<Dec>> {
        self.right@
    }

    pub fn period(&self) -> (r: TimeRange<R>)
        ensures
            r == self.spec_period(),
    {
        self.period
    }

    pub fn tags(&self) -> (r: &Tags)
        ensures
            r@ == self.spec_tags(),
    {
        &self.tags
    }

    /// Left values in time order.
    pub fn left(&self) -> (r: &Vec<Option<Dec>>)
        ensures
            r@ == self.left_values(),
            r@.len() == self.spec_period().spec_len(),
    {
        proof { use_type_invariant(self); }
        &self.left
    }

    /// Right values in time order.
    pub fn right(&self) -> (r: &Vec<Option<Dec>>)
        ensures
            r@ == self.right_values(),
            r@.len() == self.spec_period().spec_len(),
    {
        proof { use_type_invariant(self); }
        &self.right
    }

    /// The pair at `at`; `None` when `at` lies outside the period.
    pub fn get(&self, at: R) -> (r: Option<(Option<Dec>, Option<Dec>)>)
        ensures
            r == (match self.spec_period().spec_index_of(at.ord()) {
                Some(i) => Some((self.left_values()[i], self.right_values()[i])),
                None => None,
            }),
    {
        proof { use_type_invariant(self); }
        match self.period.index_of(at) {
            Some(i) => Some((self.left[i], self.right[i])),
            None => None,
        }
    }
}

/// What the side `(p, vals)` holds at each bucket of `out`.
pub(crate) fn fill_column<R: TimeResolution>(p: TimeRange<R>, vals: &Vec<Option<Dec>>, out: TimeRange<R>) -> (r: Vec<Option<Dec>>)
    requires
        vals@.len() == p.spec_len(),
    ensures
        r@ == column(p, vals@, out),
{
    proof {
        use_type_invariant(&p);
        use_type_invariant(&out);
    }
    let n = out.len();
    let os = out.start().index() as i128;
    let ps = p.start().index() as i128;
    let pe = p.end().index() as i128;
    let mut r: Vec<Option<Dec>> = Vec::new();
    let mut i: usize = 0;
    while i < n
        invariant
            n == out.spec_len(),
            os == out.start_ord(),
            ps == p.start_ord(),
            pe == p.end_ord(),
            vals@.len() == p.spec_len(),
            i <= n,
            n <= MAX_RANGE_LEN,
            i64::MIN <= os <= i64::MAX,
            i64::MIN <= ps <= pe <= i64::MAX,
            pe - ps + 1 == p.spec_len(),
            p.spec_len() <= MAX_RANGE_LEN,
            r@.len() == i,
            forall|k: int| 0 <= k < i ==> r@[k] == side_value(p, vals@, out.start_ord() + k),
        decreases n - i,
    {
        let t = os + i as i128;
        if ps <= t && t <= pe {
            let k = (t - ps) as usize;
            r.push(vals[k]);
            proof { assert(p.spec_index_of(out.start_ord() + i) == Some(k as int)); }
        } else {
            r.push(None);
        }
        i = i + 1;
    }
    proof { assert(r@ =~= column(p, vals@, out)); }
    r
}

/// Joins the columns `(lp, lv)` and `(rp, rv)` under `kind`.
fn join_columns<R: TimeResolution>(
    lp: TimeRange<R>,
    lv: &Vec<Option<Dec>>,
    rp: TimeRange<R>,
    rv: &Vec<Option<Dec>>,
    kind: JoinKind,
    tags: Tags,
) -> (r: Result<Joined<R>, Error>)
    requires
        lv@.len() == lp.spec_len(),
        rv@.len() == rp.spec_len(),
    ensures
        r is Ok <==> join_bounds(kind, lp.start_ord(), lp.end_ord(), rp.start_ord(), rp.end_ord()) is Some,
        r matches Err(e) ==> e == join_error(kind, lp.start_ord(), lp.end_ord(), rp.start_ord(), rp.end_ord()),
        r matches Ok(j) ==> join_bounds(kind, lp.start_ord(), lp.end_ord(), rp.start_ord(), rp.end_ord())
            == Some((j.spec_period().start_ord(), j.spec_period().end_ord())) && j.spec_tags() == tags@
            && j.left_values() == column(lp, lv@, j.spec_period()) && j.right_values() == column(
            rp,
            rv@,
            j.spec_period(),
        ),
{
    let out = match kind {
        JoinKind::Inner => lp.intersection(rp),
        JoinKind::FullOuter => lp.union(rp),
        JoinKind::LeftOuter => Some(lp),
        JoinKind::RightOuter => Some(rp),
    };
    match out {
        Some(period) => {
            let left = fill_column(lp, lv, period);
            let right = fill_column(rp, rv, period);
            Ok(Joined { period, tags, left, right })
        },
        None => {
            let s1 = lp.start().index() as i128;
            let e1 = lp.end().index() as i128;
            let s2 = rp.start().index() as i128;
            let e2 = rp.end().index() as i128;
            if kind == JoinKind::FullOuter && s1 <= e2 + 1 && s2 <= e1 + 1 {
                Err(Error::Overflow)
            } else {
                Err(Error::Disjoint)
            }
        },
    }
}

/// The values of a dense series, each marked present.
pub(crate) fn present_column(vals: &Vec<Dec>) -> (r: Vec<Option<Dec>>)
    ensures
        r@ == all_present(vals@),
{
    let mut r: Vec<Option<Dec>> = Vec::new();
    let mut i: usize = 0;
    while i < vals.len()
        invariant
            i <= vals@.len(),
            r@.len() == i,
            forall|k: int| 0 <= k < i ==> r@[k] == Some(vals@[k]),
        decreases vals@.len() - i,
    {
        r.push(Some(vals[i]));
        i = i + 1;
    }
    proof { assert(r@ =~= all_present(vals@)); }
    r
}

impl<R: TimeResolution> NonContigious<R> {
    /// Joins this series (left) with `other` (right) under `kind`, labelling
    /// the result with `tags`. Fails with `Disjoint` when the join has no
    /// period: an inner join of periods that share no bucket, or a full outer
    /// join of periods that neither overlap nor touch; fails with `Overflow`
    /// for a full outer join whose period would exceed `MAX_RANGE_LEN`.
    pub fn join(&self, other: &NonContigious<R>, kind: JoinKind, tags: Tags) -> (r: Result<Joined<R>, Error>)
        ensures
            r is Ok <==> join_bounds(
                kind,
                self.spec_period().start_ord(),
                self.spec_period().end_ord(),
                other.spec_period().start_ord(),
                other.spec_period().end_ord(),
            ) is Some,
            r matches Err(e) ==> e == join_error(
                kind,
                self.spec_period().start_ord(),
                self.spec_period().end_ord(),
                other.spec_period().start_ord(),
                other.spec_period().end_ord(),
            ),
            r matches Ok(j) ==> join_bounds(
                kind,
                self.spec_period().start_ord(),
                self.spec_period().end_ord(),
                other.spec_period().start_ord(),
                other.spec_period().end_ord(),
            ) == Some((j.spec_period().start_ord(), j.spec_period().end_ord())) && j.spec_tags() == tags@
                && j.left_values() == column(self.spec_period(), self.values(), j.spec_period())
                && j.right_values() == column(other.spec_period(), other.values(), j.spec_period()),
    {
        join_columns(self.period(), self.data(), other.period(), other.data(), kind, tags)
    }
}

impl<R: TimeResolution> Contigious<R> {
    /// Joins this series (left) with `other` (right) under `kind`, labelling
    /// the result with `tags`; fails with `Disjoint` or `Overflow` as the
    /// gap-aware join does.
    pub fn join(&self, other: &Contigious<R>, kind: JoinKind, tags: Tags) -> (r: Result<Joined<R>, Error>)
        ensures
            r is Ok <==> join_bounds(
                kind,
                self.spec_period().start_ord(),
                self.spec_period().end_ord(),
                other.spec_period().start_ord(),
                other.spec_period().end_ord(),
            ) is Some,
            r matches Err(e) ==> e == join_error(
                kind,
                self.spec_period().start_ord(),
                self.spec_period().end_ord(),
                other.spec_period().start_ord(),
                other.spec_period().end_ord(),
            ),
            r matches Ok(j) ==> join_bounds(
                kind,
                self.spec_period().start_ord(),
                self.spec_period().end_ord(),
                other.spec_period().start_ord(),
                other.spec_period().end_ord(),
            ) == Some((j.spec_period().start_ord(), j.spec_period().end_ord())) && j.spec_tags() == tags@
                && j.left_values() == column(self.spec_period(), all_present(self.values()), j.spec_period())
                && j.right_values() == column(other.spec_period(), all_present(other.values()), j.spec_period()),
    {
        let lv = present_column(self.data());
        let rv = present_column(other.data());
        join_columns(self.period(), &lv, other.period(), &rv, kind, tags)
    }
}

} // verus!
