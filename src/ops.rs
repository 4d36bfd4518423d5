use vstd::prelude::*;
use crate::dec::{checked_add, checked_div, checked_mul, checked_sub, dec_add, dec_div, dec_mul, dec_sub, opt_view, Dec, DecView};
use crate::error::Error;
use crate::series::{Contigious, NonContigious};

verus! {

/// An elementwise operation of every value with a scalar.
#[derive(Clone, Copy, Debug, PartialEq, Eq, Structural)]
pub enum ScalarOp {
    Add,
    Sub,
    Mul,
    Div,
}

/// `v op k`, or `None` when the result is not representable.
pub open spec fn apply_spec(op: ScalarOp, v: DecView, k: DecView) -> Option<DecView> {
    match op {
        ScalarOp::Add => dec_add(v, k),
        ScalarOp::Sub => dec_sub(v, k),
        ScalarOp::Mul => dec_mul(v, k),
        ScalarOp::Div => dec_div(v, k),
    }
}

/// The operation divides by a zero scalar.
pub open spec fn divides_by_zero(op: ScalarOp, k: DecView) -> bool {
    op == ScalarOp::Div && k.0 == 0
}

/// `v op k`.
pub fn apply(op: ScalarOp, v: Dec, k: Dec) -> (r: Option<Dec>)
    ensures
        opt_view(r) == apply_spec(op, v@, k@),
{
    match op {
        ScalarOp::Add => checked_add(v, k),
        ScalarOp::Sub => checked_sub(v, k),
        ScalarOp::Mul => checked_mul(v, k),
        ScalarOp::Div => checked_div(v, k),
    }
}

/// Every value of `vals` combined with `k` is representable.
pub open spec fn all_apply(op: ScalarOp, vals: Seq<Dec>, k: DecView) -> bool {
    forall|i: int| 0 <= i < vals.len() ==> (#[trigger] apply_spec(op, vals[i]@, k)) is Some
}

/// `out` holds each value of `vals` combined with `k`.
pub open spec fn applied(op: ScalarOp, vals: Seq<Dec>, k: DecView, out: Seq<Dec>) -> bool {
    &&& out.len() == vals.len()
    &&& forall|i: int| 0 <= i < vals.len() ==> Some(out[i]@) == #[trigger] apply_spec(op, vals[i]@, k)
}

/// Every present value of `vals` combined with `k` is representable.
pub open spec fn all_apply_present(op: ScalarOp, vals: Seq<Option<Dec>>, k: DecView) -> bool {
    forall|i: int| 0 <= i < vals.len() && vals[i] is Some ==> (#[trigger] apply_spec(op, vals[i]->0@, k)) is Some
}

/// `out` holds each present value of `vals` combined with `k`, and a gap
/// wherever `vals` has one.
pub open spec fn applied_present(op: ScalarOp, vals: Seq<Option<Dec>>, k: DecView, out: Seq<Option<Dec>>) -> bool {
    &&& out.len() == vals.len()
    &&& forall|i: int|
        0 <= i < vals.len() ==> (#[trigger] out[i] is Some) == (vals[i] is Some) && (vals[i] is Some ==> Some(
            out[i]->0@,
        ) == apply_spec(op, vals[i]->0@, k))
}

fn apply_all(op: ScalarOp, vals: &Vec<Dec>, k: Dec) -> (r: Option<Vec<Dec>>)
    ensures
        r is Some <==> all_apply(op, vals@, k@),
        r matches Some(out) ==> applied(op, vals@, k@, out@),
{
    let mut out: Vec<Dec> = Vec::new();
    let mut i: usize = 0;
    while i < vals.len()
        invariant
            i <= vals@.len(),
            out@.len() == i,
            forall|j: int| 0 <= j < i ==> Some(out@[j]@) == #[trigger] apply_spec(op, vals@[j]@, k@),
        decreases vals@.len() - i,
    {
        match apply(op, vals[i], k) {
            Some(v) => out.push(v),
            None => {
                return None;
            },
        }
        i = i + 1;
    }
    Some(out)
}

fn apply_present(op: ScalarOp, vals: &Vec<Option<Dec>>, k: Dec) -> (r: Option<Vec<Option<Dec>>>)
    ensures
        r is Some <==> all_apply_present(op, vals@, k@),
        r matches Some(out) ==> applied_present(op, vals@, k@, out@),
{
    let mut out: Vec<Option<Dec>> = Vec::new();
    let mut i: usize = 0;
    while i < vals.len()
        invariant
            i <= vals@.len(),
            out@.len() == i,
            forall|j: int|
                0 <= j < i ==> (#[trigger] out@[j] is Some) == (vals@[j] is Some) && (vals@[j] is Some ==> Some(
                    out@[j]->0@,
                ) == apply_spec(op, vals@[j]->0@, k@)),
            forall|j: int| 0 <= j < i && vals@[j] is Some ==> (#[trigger] apply_spec(op, vals@[j]->0@, k@)) is Some,
        decreases vals@.len() - i,
    {
        match vals[i] {
            Some(v) => match apply(op, v, k) {
                Some(w) => out.push(Some(w)),
                None => {
                    return None;
                },
            },
            None => out.push(None),
        }
        i = i + 1;
    }
    Some(out)
}

impl<R: crate::time::TimeResolution> Contigious<R> {
    /// A series over the same period and tags holding every value combined
    /// with `k`. Division by a zero `k` fails with `DivisionByZero`; a result
    /// out of range fails with `Overflow`.
    pub fn scalar(&self, op: ScalarOp, k: Dec) -> (r: Result<Contigious<R>, Error>)
        ensures
            divides_by_zero(op, k@) ==> r == Err::<Contigious<R>, Error>(Error::DivisionByZero),
            !divides_by_zero(op, k@) ==> (r is Ok <==> all_apply(op, self.values(), k@)),
            !divides_by_zero(op, k@) ==> (r matches Err(e) ==> e == Error::Overflow),
            r matches Ok(s) ==> s.spec_period() == self.spec_period() && s.spec_tags() == self.spec_tags()
                && applied(op, self.values(), k@, s.values()),
    {
        if op == ScalarOp::Div && k.is_zero() {
            return Err(Error::DivisionByZero);
        }
        match apply_all(op, self.data(), k) {
            Some(out) => {
                match Contigious::from_parts(self.period(), self.tags().clone(), out) {
                    Ok(s) => Ok(s),
                    Err(e) => Err(e),
                }
            },
            None => Err(Error::Overflow),
        }
    }
}

impl<R: crate::time::TimeResolution> NonContigious<R> {
    /// A series over the same period and tags holding every present value
    /// combined with `k`, with the same gaps. Division by a zero `k` fails
    /// with `DivisionByZero`; a result out of range fails with `Overflow`.
    pub fn scalar(&self, op: ScalarOp, k: Dec) -> (r: Result<NonContigious<R>, Error>)
        ensures
            divides_by_zero(op, k@) ==> r == Err::<NonContigious<R>, Error>(Error::DivisionByZero),
            !divides_by_zero(op, k@) ==> (r is Ok <==> all_apply_present(op, self.values(), k@)),
            !divides_by_zero(op, k@) ==> (r matches Err(e) ==> e == Error::Overflow),
            r matches Ok(s) ==> s.spec_period() == self.spec_period() && s.spec_tags() == self.spec_tags()
                && applied_present(op, self.values(), k@, s.values()),
    {
        if op == ScalarOp::Div && k.is_zero() {
            return Err(Error::DivisionByZero);
        }
        match apply_present(op, self.data(), k) {
            Some(out) => {
                match NonContigious::from_parts(self.period(), self.tags().clone(), out) {
                    Ok(s) => Ok(s),
                    Err(e) => Err(e),
                }
            },
            None => Err(Error::Overflow),
        }
    }
}

} // verus!
