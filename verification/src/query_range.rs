//! The window of rows a listing asks for.
use vstd::prelude::*;
use vstd::std_specs::cmp::{PartialOrdIs, PartialOrdSpec};
use std::ops::{Range, RangeFull};

verus! {

/// The unbounded range `..` of std.
#[verifier::external_type_specification]
#[verifier::external_body]
pub struct ExRangeFull(RangeFull);

/// Rows with keys in a half-open range, or all rows.
pub enum QueryRange<T> {
    Limit(Range<T>),
    All,
}

impl<T: PartialOrd> QueryRange<T> {
    /// Whether the range holds no key: a limit whose start is not below its
    /// end. (`All` is never empty.)
    pub fn is_empty(&self) -> (res: bool)
        ensures
            T::obeys_partial_cmp_spec() ==> res == (match self {
                QueryRange::Limit(r) => !r.start.is_lt(&r.end),
                QueryRange::All => false,
            }),
    {
        match self {
            QueryRange::Limit(r) => !(r.start < r.end),
            QueryRange::All => false,
        }
    }
}

impl<T> From<Range<T>> for QueryRange<T> {
    fn from(value: Range<T>) -> (res: Self) {
        QueryRange::Limit(value)
    }
}

impl<T> vstd::std_specs::convert::FromSpecImpl<Range<T>> for QueryRange<T> {
    open spec fn obeys_from_spec() -> bool {
        true
    }

    open spec fn from_spec(v: Range<T>) -> Self {
        QueryRange::Limit(v)
    }
}

impl<T> From<RangeFull> for QueryRange<T> {
    fn from(value: RangeFull) -> (res: Self) {
        QueryRange::All
    }
}

impl<T> vstd::std_specs::convert::FromSpecImpl<RangeFull> for QueryRange<T> {
    open spec fn obeys_from_spec() -> bool {
        true
    }

    open spec fn from_spec(v: RangeFull) -> Self {
        QueryRange::All
    }
}

/// An `i64` limit range is empty exactly when its start is not below its end.
pub proof fn lemma_i64_range_empty(start: i64, end: i64)
    ensures
        i64::obeys_partial_cmp_spec(),
        !start.is_lt(&end) <==> start >= end,
{
}

} // verus!
