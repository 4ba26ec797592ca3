//! The clock of the process.

use crate::http::span::Span;
use crate::http::transport::MonotonicClock;
use vstd::prelude::*;

verus! {

/// A moment on the clock of the process, [`std::time::Instant`].
#[verifier::external_type_specification]
#[verifier::external_body]
pub struct ExInstant(std::time::Instant);

/// [`std::time::Instant::now`]: the moment of the call. Which moment that is
/// rests on the machine, so nothing is claimed of it.
#[verifier::external_body]
fn this_moment() -> (moment: std::time::Instant) {
    std::time::Instant::now()
}

/// [`std::time::Instant::elapsed`], in nanoseconds: how long ago a moment was.
/// That rests on when the call is made, so nothing is claimed of it.
#[verifier::external_body]
fn nanos_since(moment: &std::time::Instant) -> (nanos: u128) {
    moment.elapsed().as_nanos()
}

/// Time since the clock was made, as the process measures it.
#[derive(Debug)]
pub struct SystemClock {
    started: std::time::Instant,
}

impl SystemClock {
    /// The moment that time is counted from.
    pub closed spec fn origin(self) -> std::time::Instant {
        self.started
    }

    /// Time is counted from the moment that the process told.
    pub closed spec fn starts_now(self) -> bool {
        call_ensures(this_moment, (), self.started)
    }

    /// The process told this much time since the origin.
    pub closed spec fn tells(self, now: Span) -> bool {
        call_ensures(nanos_since, (&self.started,), now.nanos)
    }
}

impl Default for SystemClock {
    fn default() -> (clock: Self)
        ensures
            clock.starts_now(),
    {
        SystemClock { started: this_moment() }
    }
}

impl MonotonicClock for SystemClock {
    fn now(&self) -> (now: Span)
        ensures
            self.tells(now),
    {
        Span { nanos: nanos_since(&self.started) }
    }
}

} // verus!
