use vstd::prelude::*;

verus! {

/// Every failure the library reports, one variant per kind.
#[derive(Clone, Copy, Debug, PartialEq, Eq, Structural)]
pub enum Error {
    /// The value buffer's length differs from the period's length.
    LengthMismatch { period: usize, data: usize },
    /// Built from associative input that held no entries.
    Empty,
    /// The ranges share no bucket (or, for a union, do not touch).
    Disjoint,
    /// A scalar division by zero.
    DivisionByZero,
    /// A decimal result out of the representable range.
    Overflow,
    /// An aggregate over a range with no present values.
    NoData,
    /// Two inputs disagree on a bucket or a tag and the policy rejects that.
    Conflict,
}

} // verus!
