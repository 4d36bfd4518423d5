//! Fixed-resolution time series: decimal samples indexed by discrete time
//! buckets, with range algebra, gap-aware iteration, joins, scalar arithmetic
//! and running statistics.

pub mod dec;
pub mod error;
pub mod join;
pub mod ops;
pub mod series;
pub mod stats;
pub mod tags;
pub mod time;
pub mod union;

pub use error::Error;
pub use series::{Contigious, ContigiousIter, NonContigious, NonContigiousIter};
pub use tags::{Tags, TagsTree};
