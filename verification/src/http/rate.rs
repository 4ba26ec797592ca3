//! The state that clones of a client share: how many calls run, and when the
//! latest hops started.

use crate::http::error::HttpError;
use crate::http::policy::RateLimit;
use crate::http::span::Span;
use vstd::prelude::*;

verus! {

/// How long ago a moment was; zero if it is still to come.
pub open spec fn elapsed(now: Span, then: Span) -> int {
    if now.nanos >= then.nanos {
        now.nanos - then.nanos
    } else {
        0
    }
}

/// The starts that are left when those at the front that lie a window back are
/// dropped.
pub open spec fn recent(history: Seq<Span>, now: Span, window: Span) -> Seq<Span>
    decreases history.len(),
{
    if history.len() > 0 && elapsed(now, history[0]) >= window.nanos {
        recent(history.skip(1), now, window)
    } else {
        history
    }
}

/// The starts are in the order of time.
pub open spec fn in_order(history: Seq<Span>) -> bool {
    forall|i: int, j: int|
        0 <= i <= j < history.len() ==> (#[trigger] history[i]).nanos <= (
        #[trigger] history[j]).nanos
}

/// When the latest hops started.
#[derive(Debug)]
pub struct RateHistory {
    pub starts: Vec<Span>,
}

/// How long to wait when the window is full.
pub open spec fn wait_nanos(kept: Seq<Span>, now: Span, window: Span) -> int {
    if kept.len() == 0 {
        window.nanos as int
    } else if window.nanos >= elapsed(now, kept[0]) {
        window.nanos - elapsed(now, kept[0])
    } else {
        0
    }
}

impl RateHistory {
    /// No hop has started.
    pub fn new() -> (history: RateHistory)
        ensures
            history.starts@ == Seq::<Span>::empty(),
    {
        RateHistory { starts: Vec::new() }
    }

    /// Starts a hop now, unless the window is full.
    pub fn acquire(&mut self, now: Span, rate: RateLimit) -> (outcome: Result<(), HttpError>)
        ensures
            ({
                let kept = recent(old(self).starts@, now, rate.window);
                if kept.len() >= rate.requests {
                    &&& outcome matches Err(HttpError::RateLimited { retry_after })
                    &&& retry_after.nanos == wait_nanos(kept, now, rate.window)
                    &&& final(self).starts@ == kept
                } else {
                    &&& outcome is Ok
                    &&& final(self).starts@ == kept.push(now)
                }
            }),
    {
        while self.starts.len() > 0 && now.saturating_sub(self.starts[0]).nanos >= rate.window.nanos
            invariant
                recent(old(self).starts@, now, rate.window) == recent(
                    self.starts@,
                    now,
                    rate.window,
                ),
            decreases self.starts@.len(),
        {
            let ghost before = self.starts@;
            let _ = self.starts.remove(0);
            assert(self.starts@ =~= before.skip(1));
        }
        if self.starts.len() >= rate.requests {
            let retry_after = if self.starts.len() == 0 {
                rate.window
            } else {
                rate.window.saturating_sub(now.saturating_sub(self.starts[0]))
            };
            return Err(HttpError::RateLimited { retry_after });
        }
        self.starts.push(now);
        Ok(())
    }
}

proof fn lemma_recent_is_a_suffix(history: Seq<Span>, now: Span, window: Span)
    ensures
        exists|k: int|
            0 <= k <= history.len() && recent(history, now, window) == #[trigger] history.skip(k),
    decreases history.len(),
{
    if history.len() > 0 && elapsed(now, history[0]) >= window.nanos {
        lemma_recent_is_a_suffix(history.skip(1), now, window);
        let k = choose|k: int|
            0 <= k <= history.skip(1).len() && recent(history.skip(1), now, window)
                == #[trigger] history.skip(1).skip(k);
        assert(history.skip(1).skip(k) =~= history.skip(k + 1));
    } else {
        assert(history.skip(0) =~= history);
    }
}

proof fn lemma_recent_members(history: Seq<Span>, now: Span, window: Span, i: int)
    requires
        in_order(history),
        0 <= i < recent(history, now, window).len(),
    ensures
        elapsed(now, recent(history, now, window)[i]) < window.nanos || window.nanos == 0,
        in_order(recent(history, now, window)),
    decreases history.len(),
{
    if history.len() > 0 && elapsed(now, history[0]) >= window.nanos {
        assert(in_order(history.skip(1)));
        lemma_recent_members(history.skip(1), now, window, i);
    } else {
        assert(history[0].nanos <= history[i].nanos);
    }
}

/// As long as the clock does not run backwards, the starts that count against
/// a request are exactly those less than a window old, and a client never has
/// more of them than its limit.
pub proof fn law_no_window_holds_more_starts_than_the_limit(
    history: Seq<Span>,
    now: Span,
    rate: RateLimit,
)
    requires
        rate.window.nanos > 0,
        rate.requests > 0,
        in_order(history),
        history.len() <= rate.requests,
        history.len() > 0 ==> history.last().nanos <= now.nanos,
    ensures
        ({
            let kept = recent(history, now, rate.window);
            let after = if kept.len() >= rate.requests { kept } else { kept.push(now) };
            &&& in_order(after)
            &&& after.len() <= rate.requests
            &&& after.len() > 0 ==> after.last().nanos <= now.nanos
            &&& forall|i: int|
                0 <= i < after.len() ==> elapsed(now, #[trigger] after[i]) < rate.window.nanos
        }),
{
    let kept = recent(history, now, rate.window);
    lemma_recent_is_a_suffix(history, now, rate.window);
    let k = choose|k: int| 0 <= k <= history.len() && kept == #[trigger] history.skip(k);
    assert forall|i: int, j: int| 0 <= i <= j < kept.len() implies (#[trigger] kept[i]).nanos <= (
    #[trigger] kept[j]).nanos by {
        assert(history[k + i].nanos <= history[k + j].nanos);
    }
    assert forall|i: int| 0 <= i < kept.len() implies elapsed(now, #[trigger] kept[i])
        < rate.window.nanos && kept[i].nanos <= now.nanos by {
        lemma_recent_members(history, now, rate.window, i);
        assert(history[k + i].nanos <= history.last().nanos);
    }
    let after = if kept.len() >= rate.requests { kept } else { kept.push(now) };
    assert forall|i: int, j: int| 0 <= i <= j < after.len() implies (#[trigger] after[i]).nanos <= (
    #[trigger] after[j]).nanos by {
        if j < kept.len() {
            assert(kept[i].nanos <= kept[j].nanos);
        } else if i < kept.len() {
            assert(kept[i].nanos <= now.nanos);
        }
    }
    assert forall|i: int| 0 <= i < after.len() implies elapsed(now, #[trigger] after[i])
        < rate.window.nanos by {
        if i < kept.len() {
            assert(elapsed(now, kept[i]) < rate.window.nanos);
        }
    }
    if after.len() > 0 {
        let last = after.len() - 1;
        if last < kept.len() {
            assert(kept[last].nanos <= now.nanos);
        }
    }
}

/// The number of running calls after one more, if the limit leaves room.
pub fn one_more(active: usize, limit: usize) -> (next: Option<usize>)
    ensures
        next == if active < limit {
            Some((active + 1) as usize)
        } else {
            None
        },
        next matches Some(count) ==> count <= limit,
{
    if active < limit {
        Some(active + 1)
    } else {
        None
    }
}

/// Whoever is told to wait may start after that wait, if nobody else has started since,
/// and not any earlier.
pub proof fn law_the_wait_is_as_long_as_it_must_be(
    history: Seq<Span>,
    now: Span,
    later: Span,
    rate: RateLimit,
)
    requires
        rate.window.nanos > 0,
        rate.requests > 0,
        in_order(history),
        history.len() <= rate.requests,
        history.len() > 0 ==> history.last().nanos <= now.nanos,
        recent(history, now, rate.window).len() >= rate.requests,
        now.nanos <= later.nanos,
    ensures
        ({
            let kept = recent(history, now, rate.window);
            let wait = wait_nanos(kept, now, rate.window);
            &&& 0 < wait <= rate.window.nanos
            &&& recent(kept, later, rate.window).len() < rate.requests <==> later.nanos
                >= now.nanos + wait
        }),
{
    let kept = recent(history, now, rate.window);
    law_no_window_holds_more_starts_than_the_limit(history, now, rate);
    lemma_recent_is_a_tail(history, now, rate.window);
    lemma_first_is_recent(history, now, rate.window);
    let rest = recent(kept.skip(1), later, rate.window);
    lemma_recent_is_a_tail(kept.skip(1), later, rate.window);
}

proof fn lemma_first_is_recent(history: Seq<Span>, now: Span, window: Span)
    ensures
        recent(history, now, window).len() > 0 ==> elapsed(now, recent(history, now, window)[0])
            < window.nanos,
    decreases history.len(),
{
    if history.len() > 0 && elapsed(now, history[0]) >= window.nanos {
        lemma_first_is_recent(history.skip(1), now, window);
    }
}

proof fn lemma_recent_is_a_tail(history: Seq<Span>, now: Span, window: Span)
    ensures
        recent(history, now, window).len() <= history.len(),
        recent(history, now, window) == history.skip(
            history.len() - recent(history, now, window).len(),
        ),
        forall|i: int|
            0 <= i < history.len() - recent(history, now, window).len() ==> elapsed(
                now,
                #[trigger] history[i],
            ) >= window.nanos,
    decreases history.len(),
{
    let kept = recent(history, now, window);
    if history.len() > 0 && elapsed(now, history[0]) >= window.nanos {
        lemma_recent_is_a_tail(history.skip(1), now, window);
        assert(history.skip(1).skip(history.len() - 1 - kept.len()) =~= history.skip(
            history.len() - kept.len(),
        ));
        assert forall|i: int| 0 <= i < history.len() - kept.len() implies elapsed(
            now,
            #[trigger] history[i],
        ) >= window.nanos by {
            if i > 0 {
                assert(history[i] == history.skip(1)[i - 1]);
            }
        }
    } else {
        assert(history.skip(0) =~= history);
    }
}

/// No start that lies less than a window back is forgotten: those that no longer count are
/// a window old, and the others are kept in their order.
pub proof fn law_recent_starts_are_remembered(history: Seq<Span>, now: Span, window: Span, i: int)
    requires
        0 <= i < history.len(),
        now.nanos < history[i].nanos + window.nanos,
        window.nanos > 0,
    ensures
        recent(history, now, window).contains(history[i]),
{
    lemma_recent_is_a_tail(history, now, window);
    let kept = recent(history, now, window);
    let gone = history.len() - kept.len();
    if i < gone {
        assert(elapsed(now, history[i]) >= window.nanos);
    }
    assert(kept[i - gone] == history[i]);
}

/// A call is counted if and only if fewer run than may.
pub proof fn law_calls_run_up_to_the_limit(active: usize, limit: usize, next: Option<usize>)
    requires
        call_ensures(one_more, (active, limit), next),
    ensures
        next is None <==> active >= limit,
        next matches Some(count) ==> count == active + 1,
{
}

/// A hop starts if and only if fewer starts than may be lie less than a window back; it is
/// then the latest of them. A hop that may not start leaves them as they are.
pub proof fn law_hops_start_while_the_window_has_room(
    before: RateHistory,
    now: Span,
    rate: RateLimit,
)
    ensures
        forall|history: &mut RateHistory, outcome: Result<(), HttpError>| #[trigger]
            call_ensures(RateHistory::acquire, (history, now, rate), outcome) && *history == before
                ==> {
                let kept = recent(before.starts@, now, rate.window);
                &&& outcome is Ok <==> kept.len() < rate.requests
                &&& outcome is Ok ==> final(history).starts@ == kept.push(now)
                &&& outcome is Err ==> final(history).starts@ == kept
                &&& outcome matches Err(error) ==> (error matches HttpError::RateLimited {
                    retry_after,
                } && retry_after.nanos <= rate.window.nanos)
            },
{
}

} // verus!
