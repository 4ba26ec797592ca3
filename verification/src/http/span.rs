//! Lengths of time.

use vstd::prelude::*;

verus! {

/// Nanoseconds in a second.
pub const NANOS_PER_SECOND: u128 = 1_000_000_000;

/// A length of time in nanoseconds.
#[derive(Clone, Copy, Debug, PartialEq, Eq, Structural)]
pub struct Span {
    pub nanos: u128,
}

impl Span {
    /// A number of seconds.
    pub fn from_secs(secs: u64) -> (span: Span)
        ensures
            span.nanos == secs * NANOS_PER_SECOND,
    {
        Span { nanos: secs as u128 * NANOS_PER_SECOND }
    }

    /// What is left after another length, or zero.
    pub fn saturating_sub(self, other: Span) -> (rest: Span)
        ensures
            rest.nanos == if self.nanos >= other.nanos {
                self.nanos - other.nanos
            } else {
                0
            },
    {
        if self.nanos >= other.nanos {
            Span { nanos: self.nanos - other.nanos }
        } else {
            Span { nanos: 0 }
        }
    }
}

/// A second has a thousand million nanoseconds, and what is left after a longer length is
/// nothing.
pub proof fn law_lengths_are_in_nanoseconds(
    secs: u64,
    span: Span,
    longer: Span,
    rest: Span,
)
    requires
        call_ensures(Span::from_secs, (secs,), span),
        call_ensures(Span::saturating_sub, (longer, span), rest),
    ensures
        span.nanos == secs * 1_000_000_000,
        longer.nanos >= span.nanos ==> rest.nanos + span.nanos == longer.nanos,
        longer.nanos < span.nanos ==> rest.nanos == 0,
{
}

} // verus!
