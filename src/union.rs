use vstd::prelude::*;
use crate::dec::{dec_same_spec, same_number, Dec};
use crate::error::Error;
use crate::join::{all_present, join_bounds, join_error, side_value, JoinKind};
use crate::series::{value_at, Contigious};
use crate::tags::tag_lookup;
use crate::time::TimeResolution;

verus! {

/// How to settle two inputs that hold different values for one bucket or
/// one tag key.
#[derive(Clone, Copy, Debug, PartialEq, Eq, Structural)]
pub enum ConflictPolicy {
    /// Keep the left input's value.
    LeftWins,
    /// Keep the right input's value.
    RightWins,
    /// Fail with `Conflict`.
    Reject,
}

/// The value kept from `l` and `r` under `policy`; `None` when the policy
/// rejects a disagreement. Equal values never conflict.
pub open spec fn resolve<T>(policy: ConflictPolicy, l: Option<T>, r: Option<T>) -> Option<Option<T>> {
    match (l, r) {
        (Some(a), Some(b)) => if a == b {
            Some(Some(a))
        } else {
            match policy {
                ConflictPolicy::LeftWins => Some(Some(a)),
                ConflictPolicy::RightWins => Some(Some(b)),
                ConflictPolicy::Reject => None,
            }
        },
        (Some(a), None) => Some(Some(a)),
        (None, b) => Some(b),
    }
}

/// The value kept from `l` and `r` under `policy`, where two decimals
/// standing for the same number never conflict and the left one is kept.
pub open spec fn resolve_dec(policy: ConflictPolicy, l: Option<Dec>, r: Option<Dec>) -> Option<Option<Dec>> {
    match (l, r) {
        (Some(a), Some(b)) => if dec_same_spec(a@, b@) {
            Some(Some(a))
        } else {
            match policy {
                ConflictPolicy::LeftWins => Some(Some(a)),
                ConflictPolicy::RightWins => Some(Some(b)),
                ConflictPolicy::Reject => None,
            }
        },
        (Some(a), None) => Some(Some(a)),
        (None, b) => Some(b),
    }
}

fn resolve_value(policy: ConflictPolicy, l: Option<Dec>, r: Option<Dec>) -> (res: Option<Option<Dec>>)
    ensures
        res == resolve_dec(policy, l, r),
{
    match (l, r) {
        (Some(a), Some(b)) => if same_number(a, b) {
            Some(Some(a))
        } else {
            match policy {
                ConflictPolicy::LeftWins => Some(Some(a)),
                ConflictPolicy::RightWins => Some(Some(b)),
                ConflictPolicy::Reject => None,
            }
        },
        (Some(a), None) => Some(Some(a)),
        (None, b) => Some(b),
    }
}

impl<R: TimeResolution> Contigious<R> {
    /// Every bucket's value under `policy` at position `t` of the union.
    pub open spec fn union_value(self, other: Self, policy: ConflictPolicy, t: int) -> Option<Option<Dec>> {
        resolve_dec(
            policy,
            side_value(self.spec_period(), all_present(self.values()), t),
            side_value(other.spec_period(), all_present(other.values()), t),
        )
    }

    /// A dense series over the union of both periods: each bucket takes the
    /// value of the input that covers it, and `policy` settles buckets and
    /// tag keys on which both inputs disagree (values that stand for the same
    /// number agree). Fails with `Disjoint` when the periods neither overlap
    /// nor touch, with `Overflow` when the union would exceed
    /// `MAX_RANGE_LEN`, and with `Conflict` when `Reject` meets a
    /// disagreement.
    pub fn union(&self, other: &Contigious<R>, policy: ConflictPolicy) -> (r: Result<Contigious<R>, Error>)
        ensures
            ({
                let b = join_bounds(
                    JoinKind::FullOuter,
                    self.spec_period().start_ord(),
                    self.spec_period().end_ord(),
                    other.spec_period().start_ord(),
                    other.spec_period().end_ord(),
                );
                match b {
                    None => r == Err::<Contigious<R>, Error>(
                        join_error(
                            JoinKind::FullOuter,
                            self.spec_period().start_ord(),
                            self.spec_period().end_ord(),
                            other.spec_period().start_ord(),
                            other.spec_period().end_ord(),
                        ),
                    ),
                    Some((bs, be)) => {
                        &&& r is Ok <==> (forall|k: Seq<char>|
                            #[trigger] resolve(policy, tag_lookup(self.spec_tags(), k), tag_lookup(other.spec_tags(), k))
                                is Some) && (forall|t: int|
                            bs <= t <= be ==> (#[trigger] self.union_value(*other, policy, t)) is Some)
                        &&& r matches Err(e) ==> e == Error::Conflict
                        &&& r matches Ok(s) ==> bs == s.spec_period().start_ord() && be == s.spec_period().end_ord()
                            && (forall|t: int|
                            bs <= t <= be ==> #[trigger] self.union_value(*other, policy, t) == Some(
                                value_at(s.spec_period(), s.values(), t),
                            )) && (forall|k: Seq<char>|
                            #[trigger] resolve(policy, tag_lookup(self.spec_tags(), k), tag_lookup(other.spec_tags(), k))
                                == Some(tag_lookup(s.spec_tags(), k)))
                    },
                }
            }),
    {
        let joined = match self.join(other, JoinKind::FullOuter, crate::tags::Tags::new()) {
            Ok(j) => j,
            Err(e) => return Err(e),
        };
        let period = joined.period();
        let left = joined.left();
        let right = joined.right();
        let n = left.len();
        let ghost p1 = self.spec_period();
        let ghost p2 = other.spec_period();
        // Each buffer holds one value per bucket of its period.
        let _ = self.data();
        let _ = other.data();
        let mut values: Vec<Dec> = Vec::new();
        let mut i: usize = 0;
        while i < n
            invariant
                p1 == self.spec_period(),
                p2 == other.spec_period(),
                join_bounds(JoinKind::FullOuter, p1.start_ord(), p1.end_ord(), p2.start_ord(), p2.end_ord()) == Some(
                    (period.start_ord(), period.end_ord()),
                ),
                n == left@.len(),
                n == right@.len(),
                n == period.spec_len(),
                left@ == crate::join::column(p1, all_present(self.values()), period),
                right@ == crate::join::column(p2, all_present(other.values()), period),
                self.values().len() == p1.spec_len(),
                other.values().len() == p2.spec_len(),
                period.start_ord() == crate::time::min_int(p1.start_ord(), p2.start_ord()),
                period.end_ord() == crate::time::max_int(p1.end_ord(), p2.end_ord()),
                crate::time::unionable(p1.start_ord(), p1.end_ord(), p2.start_ord(), p2.end_ord()),
                i <= n,
                values@.len() == i,
                forall|j: int|
                    0 <= j < i ==> #[trigger] self.union_value(*other, policy, period.start_ord() + j) == Some(
                        Some(values@[j]),
                    ),
            decreases n - i,
        {
            let ghost t = period.start_ord() + i;
            proof {
                assert(left@[i as int] == side_value(p1, all_present(self.values()), t));
                assert(right@[i as int] == side_value(p2, all_present(other.values()), t));
                assert(self.union_value(*other, policy, t) == resolve_dec(policy, left@[i as int], right@[i as int]));
            }
            match resolve_value(policy, left[i], right[i]) {
                Some(Some(v)) => values.push(v),
                Some(None) => {
                    proof {
                        assert(p1.start_ord() <= t <= p1.end_ord() || p2.start_ord() <= t <= p2.end_ord());
                    }
                    return vstd::pervasive::unreached();
                },
                None => {
                    proof {
                        assert(self.union_value(*other, policy, t) is None);
                    }
                    return Err(Error::Conflict);
                },
            }
            i = i + 1;
        }
        let tags = match self.tags().merge(other.tags(), policy) {
            Ok(t) => t,
            Err(e) => return Err(e),
        };
        proof {
            assert forall|t: int| period.start_ord() <= t <= period.end_ord() implies #[trigger] self.union_value(
                *other,
                policy,
                t,
            ) == Some(value_at(period, values@, t)) by {
                let j = t - period.start_ord();
                assert(self.union_value(*other, policy, period.start_ord() + j) == Some(Some(values@[j])));
            }
        }
        Contigious::from_parts(period, tags, values)
    }
}

} // verus!
