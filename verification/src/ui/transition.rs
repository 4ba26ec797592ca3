//! How far something has come into view.

use crate::extension::navigation::HALF_BITS;
use crate::float_bits::{FloatBits, ONE_BITS};
use vstd::prelude::*;

verus! {

/// A value between zero and one on its way to another.
#[derive(Clone, Copy, Debug, PartialEq, Eq, Structural)]
pub struct UnitTransition {
    value: FloatBits,
    target: FloatBits,
}

/// A number between zero and one: the nearest, or zero where there is none.
pub open spec fn unit_of(value: FloatBits) -> FloatBits {
    if value.finite() {
        value.within(FloatBits(0), FloatBits(ONE_BITS))
    } else {
        FloatBits(0)
    }
}

fn sanitize_unit(value: FloatBits) -> (unit: FloatBits)
    ensures
        unit == unit_of(value),
        unit.in_unit_range(),
{
    if value.is_finite() {
        value.clamped(FloatBits(0), FloatBits(ONE_BITS))
    } else {
        FloatBits(0)
    }
}

/// What a frame does to a transition.
#[derive(Clone, Copy, Debug, PartialEq, Eq, Structural)]
pub enum FrameStep {
    /// It has arrived; no more frames are needed.
    Settle,
    /// The frame says nothing; wait for another.
    Wait,
    /// It gets on.
    Move,
}

impl UnitTransition {
    /// Where it is.
    pub closed spec fn now(self) -> FloatBits {
        self.value
    }

    /// Where it goes.
    pub closed spec fn end(self) -> FloatBits {
        self.target
    }

    /// Both are between zero and one.
    pub open spec fn wf(self) -> bool {
        self.now().in_unit_range() && self.end().in_unit_range()
    }

    /// A transition that has arrived.
    pub fn new(value: FloatBits) -> (transition: UnitTransition)
        ensures
            transition.wf(),
            transition.now() == unit_of(value),
            transition.end() == unit_of(value),
    {
        let value = sanitize_unit(value);
        UnitTransition { value, target: value }
    }

    /// Out of view.
    pub fn hidden() -> (transition: UnitTransition)
        ensures
            transition.wf(),
            transition.now() == FloatBits(0),
            transition.end() == FloatBits(0),
    {
        UnitTransition { value: FloatBits(0), target: FloatBits(0) }
    }

    /// In view.
    pub fn visible() -> (transition: UnitTransition)
        ensures
            transition.wf(),
            transition.now() == FloatBits(ONE_BITS),
            transition.end() == FloatBits(ONE_BITS),
    {
        UnitTransition { value: FloatBits(ONE_BITS), target: FloatBits(ONE_BITS) }
    }

    /// Where it is.
    pub fn value(self) -> (value: FloatBits)
        ensures
            value == self.now(),
    {
        self.value
    }

    /// Where it goes.
    pub fn target(self) -> (target: FloatBits)
        ensures
            target == self.end(),
    {
        self.target
    }

    /// Goes somewhere else from here.
    pub fn set_target(&mut self, target: FloatBits)
        ensures
            final(self).now() == old(self).now(),
            final(self).end() == unit_of(target),
            final(self).end().in_unit_range(),
    {
        self.target = sanitize_unit(target);
    }

    /// Goes into view or out of it.
    pub fn set_visible(&mut self, visible: bool)
        ensures
            final(self).now() == old(self).now(),
            final(self).end() == if visible {
                FloatBits(ONE_BITS)
            } else {
                FloatBits(0)
            },
    {
        self.target = if visible {
            FloatBits(ONE_BITS)
        } else {
            FloatBits(0)
        };
    }

    /// Goes the other way.
    pub fn toggle(&mut self)
        ensures
            final(self).now() == old(self).now(),
            final(self).end() == if old(self).end().rank() > HALF_BITS {
                FloatBits(0)
            } else {
                FloatBits(ONE_BITS)
            },
    {
        self.target = if self.target.order() > HALF_BITS as i64 {
            FloatBits(0)
        } else {
            FloatBits(ONE_BITS)
        };
    }

    /// Is somewhere at once.
    pub fn snap_to(&mut self, value: FloatBits)
        ensures
            final(self).wf(),
            final(self).now() == unit_of(value),
            final(self).end() == unit_of(value),
    {
        let value = sanitize_unit(value);
        self.value = value;
        self.target = value;
    }

    /// What a frame does: nothing more where it is as good as there, and nothing
    /// yet where the time or the response is none. With no response at all
    /// things arrive at once.
    pub fn judge_frame(
        self,
        is_animating: bool,
        elapsed_seconds: FloatBits,
        response: Option<FloatBits>,
    ) -> (step: FrameStep)
        ensures
            step == if !is_animating || response is None {
                FrameStep::Settle
            } else if !elapsed_seconds.is_positive() || !response->Some_0.is_positive() {
                FrameStep::Wait
            } else {
                FrameStep::Move
            },
    {
        match response {
            None => FrameStep::Settle,
            Some(response) => if !is_animating {
                FrameStep::Settle
            } else if !elapsed_seconds.positive() || !response.positive() {
                FrameStep::Wait
            } else {
                FrameStep::Move
            },
        }
    }

    /// Arrives.
    pub fn settle(&mut self)
        ensures
            final(self).now() == old(self).end(),
            final(self).end() == old(self).end(),
    {
        self.value = self.target;
    }

    /// Gets on to a value, or all the way where that is as good as there.
    pub fn move_to(&mut self, value: FloatBits, arrived: bool)
        ensures
            final(self).end() == old(self).end(),
            final(self).now() == if arrived {
                old(self).end()
            } else {
                unit_of(value)
            },
            old(self).wf() ==> final(self).wf(),
    {
        self.value = if arrived {
            self.target
        } else {
            sanitize_unit(value)
        };
    }
}

impl Default for UnitTransition {
    fn default() -> (transition: Self)
        ensures
            transition.wf(),
            transition.now() == FloatBits(0),
            transition.end() == FloatBits(0),
    {
        UnitTransition::hidden()
    }
}

/// What a transition is at, or goes to, is the number itself where that is between zero and
/// one, and else the nearer of the two; it is zero where there is no number.
pub proof fn law_transitions_stay_in_the_unit(value: FloatBits)
    ensures
        0 <= unit_of(value).rank() <= 0x3f80_0000,
        unit_of(value).finite(),
        value.finite() && 0 <= value.rank() <= 0x3f80_0000 ==> unit_of(value) == value,
        value.finite() && value.rank() > 0x3f80_0000 ==> unit_of(value).rank() == 0x3f80_0000,
        value.finite() && value.rank() < 0 ==> unit_of(value).rank() == 0,
        !value.finite() ==> unit_of(value).rank() == 0,
{
}

/// A transition that is toggled goes the other way: out of view if it goes into view, that
/// is beyond a half, and else into view. Toggled again it goes the first way. It is where it
/// was until it gets on.
pub proof fn law_toggling_goes_the_other_way(before: UnitTransition)
    ensures
        forall|transition: &mut UnitTransition| #[trigger]
            call_ensures(UnitTransition::toggle, (transition,), ()) && *transition == before ==> {
                &&& final(transition).now() == before.now()
                &&& before.end().rank() > 0x3f00_0000 ==> final(transition).end().rank() == 0
                &&& before.end().rank() <= 0x3f00_0000 ==> final(transition).end().rank()
                    == 0x3f80_0000
            },
        forall|transition: &mut UnitTransition, visible: bool| #[trigger]
            call_ensures(UnitTransition::set_visible, (transition, visible), ()) && *transition
                == before ==> {
                &&& final(transition).now() == before.now()
                &&& visible ==> final(transition).end().rank() == 0x3f80_0000
                &&& !visible ==> final(transition).end().rank() == 0
            },
        forall|transition: &mut UnitTransition| #[trigger]
            call_ensures(UnitTransition::settle, (transition,), ()) && *transition == before
                ==> final(transition).now() == before.end() && final(transition).end()
                == before.end(),
{
}

/// A transition gets on if and only if it moves, there is a response and time has passed.
/// Without a response, or without motion, it arrives at once.
pub proof fn law_transitions_get_on_while_time_passes(
    transition: UnitTransition,
    is_animating: bool,
    elapsed: FloatBits,
    response: Option<FloatBits>,
    step: FrameStep,
)
    requires
        call_ensures(
            UnitTransition::judge_frame,
            (transition, is_animating, elapsed, response),
            step,
        ),
    ensures
        step is Settle <==> !is_animating || response is None,
        step is Move <==> is_animating && elapsed.finite() && elapsed.rank() > 0 && (
        response matches Some(rate) && rate.finite() && rate.rank() > 0),
{
}

/// A transition that gets on is where it got to, within the unit, or at its end where that is
/// as good as there. It goes on to the same end.
pub proof fn law_transitions_keep_their_end(
    before: UnitTransition,
    value: FloatBits,
    arrived: bool,
)
    ensures
        forall|transition: &mut UnitTransition| #[trigger]
            call_ensures(UnitTransition::move_to, (transition, value, arrived), ())
                && *transition == before ==> {
                &&& final(transition).end() == before.end()
                &&& arrived ==> final(transition).now() == before.end()
                &&& !arrived && value.finite()
                    && 0 <= value.rank() <= 0x3f80_0000 ==> final(transition).now() == value
            },
        forall|transition: &mut UnitTransition| #[trigger]
            call_ensures(UnitTransition::snap_to, (transition, value), ()) && *transition == before
                ==> final(transition).now() == final(transition).end(),
        forall|transition: &mut UnitTransition| #[trigger]
            call_ensures(UnitTransition::set_target, (transition, value), ()) && *transition
                == before ==> final(transition).now() == before.now(),
{
}

} // verus!
