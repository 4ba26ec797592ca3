//! Cooperative cancellation shared between an owner and its workers.

use std::sync::atomic::{AtomicBool, Ordering};
use std::sync::Arc;
use vstd::prelude::*;

verus! {

/// The flag was made unset.
pub open spec fn made_unset(flag: AtomicBool) -> bool {
    call_ensures(AtomicBool::new, (false,), flag)
}

/// An atomic read of the flag gave this.
pub open spec fn seen(flag: AtomicBool, cancelled: bool) -> bool {
    call_ensures(AtomicBool::load, (&flag, Ordering::Acquire), cancelled)
}

/// The flag was set by an atomic exchange, which found it as it was.
pub open spec fn set_when(flag: AtomicBool, was_set: bool) -> bool {
    call_ensures(AtomicBool::swap, (&flag, true, Ordering::AcqRel), was_set)
}

/// The flag was set.
pub open spec fn is_set(flag: AtomicBool) -> bool {
    exists|was_set: bool| #[trigger] set_when(flag, was_set)
}

/// Something that was done with a flag, and what the flag was found to be.
pub enum FlagStep {
    Read(bool),
    Raised(bool),
}

impl FlagStep {
    /// What the flag was found to be.
    pub open spec fn found(self) -> bool {
        match self {
            FlagStep::Read(found) => found,
            FlagStep::Raised(found) => found,
        }
    }

    /// This was done with the flag.
    pub open spec fn was_taken(self, flag: AtomicBool) -> bool {
        match self {
            FlagStep::Read(found) => seen(flag, found),
            FlagStep::Raised(found) => set_when(flag, found),
        }
    }
}

/// The flag was set in one of the first steps.
pub open spec fn set_before(steps: Seq<FlagStep>, count: int) -> bool {
    exists|i: int| 0 <= i < count && (#[trigger] steps[i]) is Raised
}

/// A step finds the flag as the step before left it.
pub open spec fn finds_what_was_left(steps: Seq<FlagStep>, i: int) -> bool {
    steps[i].found() == (steps[i - 1].found() || steps[i - 1] is Raised)
}

/// A flag that was made unset went through these steps one after the other: each found
/// it as the steps before had left it.
pub open spec fn flag_went_through(flag: AtomicBool, steps: Seq<FlagStep>) -> bool {
    &&& made_unset(flag)
    &&& forall|i: int| 0 <= i < steps.len() ==> (#[trigger] steps[i]).was_taken(flag)
    &&& steps.len() > 0 ==> !steps[0].found()
    &&& forall|i: int| 0 < i < steps.len() ==> #[trigger] finds_what_was_left(steps, i)
}

/// A flag is found unset until it is set for the first time, and from then on whoever
/// looks, or sets it again, finds it set.
pub proof fn law_flags_stay_set(flag: AtomicBool, steps: Seq<FlagStep>, k: int)
    requires
        flag_went_through(flag, steps),
        0 <= k < steps.len(),
    ensures
        steps[k].found() == set_before(steps, k),
    decreases k,
{
    if k > 0 {
        law_flags_stay_set(flag, steps, k - 1);
        assert(finds_what_was_left(steps, k));
        if set_before(steps, k) {
            let i = choose|i: int| 0 <= i < k && (#[trigger] steps[i]) is Raised;
            if i < k - 1 {
                assert(set_before(steps, k - 1));
            }
        }
        if set_before(steps, k - 1) {
            let i = choose|i: int| 0 <= i < k - 1 && (#[trigger] steps[i]) is Raised;
            assert(steps[i] is Raised && i < k);
        }
        if steps[k - 1] is Raised {
            assert(set_before(steps, k));
        }
    }
}

/// One of two flags was seen set, or both were seen unset.
pub open spec fn either_seen(first: AtomicBool, second: AtomicBool, cancelled: bool) -> bool {
    if cancelled {
        seen(first, true) || seen(second, true)
    } else {
        seen(first, false) && seen(second, false)
    }
}

/// Owner side of a cancellation flag.
///
/// The flag is an atomic cell that any thread may set, so a read of it is an
/// observation of the moment. The contracts say which flag is read or set, and
/// what follows from what was seen.
#[derive(Debug)]
pub struct CancellationSource {
    state: Arc<AtomicBool>,
}

/// Worker side of a cancellation flag: it can be read and not set.
#[derive(Debug)]
pub struct CancellationToken {
    state: Arc<AtomicBool>,
}

/// Returned by a checkpoint that observed a cancelled flag.
#[derive(Clone, Copy, Debug, PartialEq, Eq, Structural)]
pub struct Cancelled;

impl Cancelled {
    /// The words of [`message`](Self::message).
    pub open spec fn message_text(self) -> Seq<char> {
        "operation cancelled"@
    }

    /// The error in words.
    pub fn message(self) -> (text: &'static str)
        ensures
            text@ == self.message_text(),
    {
        "operation cancelled"
    }
}

/// What a worker does with one observation of its flag.
pub fn checkpoint_outcome(cancelled: bool) -> (outcome: Result<(), Cancelled>)
    ensures
        cancelled ==> outcome == Err::<(), Cancelled>(Cancelled),
        !cancelled ==> outcome == Ok::<(), Cancelled>(()),
{
    if cancelled {
        Err(Cancelled)
    } else {
        Ok(())
    }
}

impl CancellationSource {
    /// The shared flag that this source sets.
    pub closed spec fn flag(&self) -> AtomicBool {
        *self.state
    }

    /// Creates a source over a flag of its own, which starts unset.
    pub fn new() -> (source: Self)
        ensures
            made_unset(source.flag()),
    {
        CancellationSource { state: Arc::new(AtomicBool::new(false)) }
    }

    /// Derives a token over the same flag.
    pub fn token(&self) -> (token: CancellationToken)
        ensures
            token.flag() == self.flag(),
    {
        CancellationToken { state: Arc::clone(&self.state) }
    }

    /// Sets the flag for every token. Returns `true` to the one call that
    /// found it unset.
    pub fn cancel(&self) -> (first: bool)
        ensures
            set_when(self.flag(), !first),
            is_set(self.flag()),
    {
        let was_set = self.state.swap(true, Ordering::AcqRel);
        assert(set_when(self.flag(), was_set));
        !was_set
    }

    /// Reads the flag.
    pub fn is_cancelled(&self) -> (cancelled: bool)
        ensures
            seen(self.flag(), cancelled),
    {
        self.state.load(Ordering::Acquire)
    }
}

impl Clone for CancellationSource {
    fn clone(&self) -> (copy: Self)
        ensures
            copy.flag() == self.flag(),
            copy == *self,
    {
        CancellationSource { state: Arc::clone(&self.state) }
    }
}

/// All of these flags were set.
pub open spec fn all_set(sources: Seq<CancellationSource>) -> bool {
    forall|i: int| 0 <= i < sources.len() ==> is_set((#[trigger] sources[i]).flag())
}

/// Sets each of the flags.
pub fn cancel_all(sources: &Vec<CancellationSource>)
    ensures
        all_set(sources@),
{
    let mut i: usize = 0;
    while i < sources.len()
        invariant
            i <= sources.len(),
            forall|j: int| 0 <= j < i ==> is_set((#[trigger] sources@[j]).flag()),
        decreases sources.len() - i,
    {
        let _ = sources[i].cancel();
        i += 1;
    }
}

impl Default for CancellationSource {
    fn default() -> (source: Self)
        ensures
            made_unset(source.flag()),
    {
        CancellationSource::new()
    }
}

impl CancellationToken {
    /// The shared flag that this token reads.
    pub closed spec fn flag(&self) -> AtomicBool {
        *self.state
    }

    /// Reads the flag.
    pub fn is_cancelled(&self) -> (cancelled: bool)
        ensures
            seen(self.flag(), cancelled),
    {
        self.state.load(Ordering::Acquire)
    }

    /// Reads the flag and fails when it is set.
    pub fn checkpoint(&self) -> (outcome: Result<(), Cancelled>)
        ensures
            seen(self.flag(), outcome is Err),
    {
        checkpoint_outcome(self.is_cancelled())
    }
}

/// Two flags at once: cancelled as soon as one of them is.
#[derive(Debug)]
pub struct CombinedCancellation {
    pub first: CancellationToken,
    pub second: CancellationToken,
}

impl CancellationToken {
    /// This flag together with another.
    pub fn combined(&self, other: &CancellationToken) -> (both: CombinedCancellation)
        ensures
            both.first == *self,
            both.second == *other,
    {
        CombinedCancellation { first: self.clone(), second: other.clone() }
    }
}

impl CombinedCancellation {
    /// The two flags are these.
    pub open spec fn is_of(&self, first: AtomicBool, second: AtomicBool) -> bool {
        self.first.flag() == first && self.second.flag() == second
    }

    /// Reads the flags.
    pub fn is_cancelled(&self) -> (cancelled: bool)
        ensures
            either_seen(self.first.flag(), self.second.flag(), cancelled),
    {
        self.first.is_cancelled() || self.second.is_cancelled()
    }

    /// Reads the flags and fails when one is set.
    pub fn checkpoint(&self) -> (outcome: Result<(), Cancelled>)
        ensures
            either_seen(self.first.flag(), self.second.flag(), outcome is Err),
    {
        checkpoint_outcome(self.is_cancelled())
    }
}

/// Whether a piece of work may go on: with it in hand neither flag is seen set.
pub fn may_go_on<V>(work: &V, cancellation: &CombinedCancellation) -> (going: bool)
    ensures
        either_seen(cancellation.first.flag(), cancellation.second.flag(), !going),
{
    !cancellation.is_cancelled()
}

/// With this piece of work in hand it was looked whether it may go on under these flags.
pub open spec fn was_let_on<V>(
    work: V,
    first: AtomicBool,
    second: AtomicBool,
    going: bool,
) -> bool {
    exists|cancellation: &CombinedCancellation| #[trigger]
        call_ensures(may_go_on::<V>, (&work, cancellation), going) && cancellation.is_of(
            first,
            second,
        )
}

impl Clone for CancellationToken {
    fn clone(&self) -> (copy: Self)
        ensures
            copy.flag() == self.flag(),
            copy == *self,
    {
        CancellationToken { state: Arc::clone(&self.state) }
    }
}

} // verus!
