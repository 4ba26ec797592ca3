//! Cancellation of a request from the outside.

use crate::http::error::HttpError;
use std::sync::atomic::{AtomicBool, Ordering};
use std::sync::Arc;
use vstd::prelude::*;

verus! {

/// The flag was made unset.
pub open spec fn made_unset(flag: AtomicBool) -> bool {
    call_ensures(AtomicBool::new, (false,), flag)
}

/// An atomic read of the flag gave this.
pub open spec fn seen(flag: AtomicBool, cancelled: bool) -> bool {
    call_ensures(AtomicBool::load, (&flag, Ordering::Acquire), cancelled)
}

/// The flag was set by an atomic write.
pub open spec fn was_set(flag: AtomicBool) -> bool {
    call_ensures(AtomicBool::store, (&flag, true, Ordering::Release), ())
}

/// Owner side of a cancellation flag.
///
/// The flag is an atomic cell that any thread may set, so a read of it is an
/// observation of the moment. The contracts say which flag is read or set, and
/// what follows from what was seen.
#[derive(Debug)]
pub struct CancellationSource {
    cancelled: Arc<AtomicBool>,
}

/// Read side of a cancellation flag.
#[derive(Debug)]
pub struct CancellationToken {
    cancelled: Arc<AtomicBool>,
}

impl CancellationSource {
    /// The shared flag that this source sets.
    pub closed spec fn flag(&self) -> AtomicBool {
        *self.cancelled
    }

    /// Creates a source over a flag of its own, which starts unset.
    pub fn new() -> (source: Self)
        ensures
            made_unset(source.flag()),
    {
        CancellationSource { cancelled: Arc::new(AtomicBool::new(false)) }
    }

    /// Derives a token over the same flag.
    pub fn token(&self) -> (token: CancellationToken)
        ensures
            token.flag() == self.flag(),
    {
        CancellationToken { cancelled: Arc::clone(&self.cancelled) }
    }

    /// Sets the flag for every token.
    pub fn cancel(&self)
        ensures
            was_set(self.flag()),
    {
        self.cancelled.store(true, Ordering::Release);
    }

    /// Reads the flag.
    pub fn is_cancelled(&self) -> (cancelled: bool)
        ensures
            seen(self.flag(), cancelled),
    {
        self.cancelled.load(Ordering::Acquire)
    }
}

impl Clone for CancellationSource {
    fn clone(&self) -> (copy: Self)
        ensures
            copy == *self,
    {
        CancellationSource { cancelled: Arc::clone(&self.cancelled) }
    }
}

impl Default for CancellationSource {
    fn default() -> (source: Self)
        ensures
            made_unset(source.flag()),
    {
        CancellationSource::new()
    }
}

impl CancellationToken {
    /// The shared flag that this token reads.
    pub closed spec fn flag(&self) -> AtomicBool {
        *self.cancelled
    }

    /// A token over a flag that nobody sets.
    pub fn active() -> (token: Self)
        ensures
            made_unset(token.flag()),
    {
        CancellationToken { cancelled: Arc::new(AtomicBool::new(false)) }
    }

    /// Reads the flag.
    pub fn is_cancelled(&self) -> (cancelled: bool)
        ensures
            seen(self.flag(), cancelled),
    {
        self.cancelled.load(Ordering::Acquire)
    }
}

impl Clone for CancellationToken {
    fn clone(&self) -> (copy: Self)
        ensures
            copy == *self,
    {
        CancellationToken { cancelled: Arc::clone(&self.cancelled) }
    }
}

impl Default for CancellationToken {
    fn default() -> (token: Self)
        ensures
            made_unset(token.flag()),
    {
        CancellationToken::active()
    }
}

/// Hands a value on, unless the caller has cancelled by now.
pub fn pass<V>(value: V, cancellation: &CancellationToken) -> (passed: Result<V, HttpError>)
    ensures
        match passed {
            Ok(same) => same == value && seen(cancellation.flag(), false),
            Err(error) => error == HttpError::Cancelled && seen(cancellation.flag(), true),
        },
{
    if cancellation.is_cancelled() {
        Err(HttpError::Cancelled)
    } else {
        Ok(value)
    }
}

/// With this value in hand it was looked whether the caller has cancelled, and this
/// came of it.
pub open spec fn was_passed<V>(
    value: V,
    flag: AtomicBool,
    passed: Result<V, HttpError>,
) -> bool {
    exists|token: &CancellationToken| #[trigger]
        call_ensures(pass::<V>, (value, token), passed) && token.flag() == flag
}

/// Something that was done with a flag: it was looked at and found to be this, or it
/// was set.
pub enum FlagStep {
    Read(bool),
    Raised,
}

impl FlagStep {
    /// This was done with the flag.
    pub open spec fn was_taken(self, flag: AtomicBool) -> bool {
        match self {
            FlagStep::Read(found) => seen(flag, found),
            FlagStep::Raised => was_set(flag),
        }
    }
}

/// The flag was set in one of the first steps.
pub open spec fn set_before(steps: Seq<FlagStep>, count: int) -> bool {
    exists|i: int| 0 <= i < count && (#[trigger] steps[i]) is Raised
}

/// Whether the flag is set after the first steps.
pub open spec fn left_set(steps: Seq<FlagStep>, count: int) -> bool
    decreases count,
{
    count > 0 && (steps[count - 1] is Raised || left_set(steps, count - 1))
}

/// A flag that was made unset went through these steps one after the other: whoever
/// looked found it as the steps before had left it.
pub open spec fn flag_went_through(flag: AtomicBool, steps: Seq<FlagStep>) -> bool {
    &&& made_unset(flag)
    &&& forall|i: int| 0 <= i < steps.len() ==> (#[trigger] steps[i]).was_taken(flag)
    &&& forall|i: int|
        0 <= i < steps.len() ==> ((#[trigger] steps[i]) matches FlagStep::Read(found) ==> found
            == left_set(steps, i))
}

proof fn lemma_left_set(steps: Seq<FlagStep>, count: int)
    requires
        0 <= count <= steps.len(),
    ensures
        left_set(steps, count) == set_before(steps, count),
    decreases count,
{
    if count > 0 {
        lemma_left_set(steps, count - 1);
        if set_before(steps, count) {
            let i = choose|i: int| 0 <= i < count && (#[trigger] steps[i]) is Raised;
            if i < count - 1 {
                assert(set_before(steps, count - 1));
            }
        }
        if steps[count - 1] is Raised {
            assert(set_before(steps, count));
        }
        if set_before(steps, count - 1) {
            let i = choose|i: int| 0 <= i < count - 1 && (#[trigger] steps[i]) is Raised;
            assert(steps[i] is Raised && i < count);
        }
    }
}

/// A flag is found unset until it is set for the first time, and from then on whoever
/// looks, through whichever token or source of it, finds it set.
pub proof fn law_flags_stay_set(flag: AtomicBool, steps: Seq<FlagStep>, k: int)
    requires
        flag_went_through(flag, steps),
        0 <= k < steps.len(),
        steps[k] is Read,
    ensures
        steps[k] == FlagStep::Read(set_before(steps, k)),
{
    lemma_left_set(steps, k);
}

/// A flag that nobody sets is found unset for ever. The flag of an active token is
/// such a one: a token has no way to set it, and no source has the flag.
pub proof fn law_flags_that_nobody_sets_stay_unset(flag: AtomicBool, steps: Seq<FlagStep>, k: int)
    requires
        flag_went_through(flag, steps),
        forall|i: int| 0 <= i < steps.len() ==> (#[trigger] steps[i]) is Read,
        0 <= k < steps.len(),
    ensures
        steps[k] == FlagStep::Read(false),
{
    law_flags_stay_set(flag, steps, k);
    if set_before(steps, k) {
        let i = choose|i: int| 0 <= i < k && (#[trigger] steps[i]) is Raised;
        assert(steps[i] is Read);
    }
}

} // verus!
