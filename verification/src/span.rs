//! Half-open `[start, end)` byte-offset ranges into the source text.
use vstd::prelude::*;

verus! {

/// A half-open byte-offset range `[start, end)` into the source text.
#[derive(Debug, Clone, Copy, PartialEq, Eq, Structural)]
pub struct Span {
    pub start: usize,
    pub end: usize,
}

/// The smallest span covering both `a` and `b`.
pub open spec fn spec_env(a: Span, b: Span) -> Span {
    Span {
        start: if a.start <= b.start {
            a.start
        } else {
            b.start
        },
        end: if a.end >= b.end {
            a.end
        } else {
            b.end
        },
    }
}

/// Computes the min/max envelope of two spans.
pub fn env(a: Span, b: Span) -> (r: Span)
    ensures
        r == spec_env(a, b),
{
    Span {
        start: if a.start <= b.start {
            a.start
        } else {
            b.start
        },
        end: if a.end >= b.end {
            a.end
        } else {
            b.end
        },
    }
}

} // verus!
