//! What keys and wheels ask of a view.

use crate::float_bits::{FloatBits, ONE_BITS};
use crate::viewport::controller::{ScrollBehavior, ScrollOffset, ViewportPoint};
use crate::viewport::limits::PdfReaderConfig;
use vstd::prelude::*;

verus! {

/// The bits of the least difference from one.
pub const EPSILON_BITS: u32 = 0x3400_0000;

/// A turn of the wheel.
#[derive(Clone, Copy, Debug, PartialEq, Eq, Structural)]
pub struct WheelInput {
    pub delta_x: FloatBits,
    pub delta_y: FloatBits,
    /// The device tells pixels.
    pub precise: bool,
    pub shift: bool,
    pub zoom_modifier: bool,
    pub position: ViewportPoint,
}

/// What a turn of the wheel asks for.
#[derive(Clone, Copy, Debug, PartialEq, Eq, Structural)]
pub enum WheelAction {
    /// Nothing: it is no turn.
    Invalid,
    Zoom { delta_y: FloatBits, position: ViewportPoint },
    Scroll { by: ScrollOffset, behavior: ScrollBehavior },
}

impl WheelInput {
    /// What the turn asks for. With the shift key a wheel that turns one way
    /// only scrolls sideways.
    pub fn action(self) -> (action: WheelAction)
        ensures
            action == if !self.delta_x.finite() || !self.delta_y.finite() {
                WheelAction::Invalid
            } else if self.zoom_modifier {
                WheelAction::Zoom { delta_y: self.delta_y, position: self.position }
            } else {
                WheelAction::Scroll {
                    by: if self.shift && self.delta_x.magnitude() < EPSILON_BITS {
                        ScrollOffset { x: self.delta_y.opposite(), y: FloatBits(0) }
                    } else {
                        ScrollOffset { x: self.delta_x.opposite(), y: self.delta_y.opposite() }
                    },
                    behavior: if self.precise {
                        ScrollBehavior::Immediate
                    } else {
                        ScrollBehavior::Smooth
                    },
                }
            },
    {
        if !self.delta_x.is_finite() || !self.delta_y.is_finite() {
            return WheelAction::Invalid;
        }
        if self.zoom_modifier {
            return WheelAction::Zoom { delta_y: self.delta_y, position: self.position };
        }
        let by = if self.shift && self.delta_x.0 % 0x8000_0000 < EPSILON_BITS {
            ScrollOffset { x: self.delta_y.negated(), y: FloatBits(0) }
        } else {
            ScrollOffset { x: self.delta_x.negated(), y: self.delta_y.negated() }
        };
        WheelAction::Scroll {
            by,
            behavior: if self.precise {
                ScrollBehavior::Immediate
            } else {
                ScrollBehavior::Smooth
            },
        }
    }
}

/// What a key asks for.
#[derive(Clone, Copy, Debug, PartialEq, Eq, Structural)]
pub enum NavigationCommand {
    ScrollUp,
    ScrollDown,
    ScrollLeft,
    ScrollRight,
    PageUp,
    PageDown,
    FirstPage,
    LastPage,
    ZoomIn,
    ZoomOut,
    ActualSize,
    FitWidth,
}

/// How a view answers a key.
#[derive(Clone, Copy, Debug, PartialEq, Eq, Structural)]
pub enum NavigationAction {
    /// Scrolls smoothly.
    ScrollBy(ScrollOffset),
    /// Scrolls smoothly by this fraction of its height, down or up.
    ScrollByHeight { fraction: FloatBits },
    /// Goes to the start.
    ToStart,
    /// Goes to the end.
    ToEnd,
    /// Makes the zoom so many times greater.
    ZoomBy(FloatBits),
    /// Makes the zoom so many times smaller.
    ZoomBack(FloatBits),
    /// Shows pages in their own size.
    ActualSize,
    /// Fits the width.
    FitWidth,
}

/// How a view with this configuration answers a key.
pub open spec fn answer(command: NavigationCommand, config: PdfReaderConfig) -> NavigationAction {
    let zero = FloatBits(0);
    match command {
        NavigationCommand::ScrollUp => NavigationAction::ScrollBy(
            ScrollOffset { x: zero, y: config.scroll_step.opposite() },
        ),
        NavigationCommand::ScrollDown => NavigationAction::ScrollBy(
            ScrollOffset { x: zero, y: config.scroll_step },
        ),
        NavigationCommand::ScrollLeft => NavigationAction::ScrollBy(
            ScrollOffset { x: config.scroll_step.opposite(), y: zero },
        ),
        NavigationCommand::ScrollRight => NavigationAction::ScrollBy(
            ScrollOffset { x: config.scroll_step, y: zero },
        ),
        NavigationCommand::PageUp => NavigationAction::ScrollByHeight {
            fraction: config.page_scroll_fraction.opposite(),
        },
        NavigationCommand::PageDown => NavigationAction::ScrollByHeight {
            fraction: config.page_scroll_fraction,
        },
        NavigationCommand::FirstPage => NavigationAction::ToStart,
        NavigationCommand::LastPage => NavigationAction::ToEnd,
        NavigationCommand::ZoomIn => NavigationAction::ZoomBy(config.zoom_step),
        NavigationCommand::ZoomOut => NavigationAction::ZoomBack(config.zoom_step),
        NavigationCommand::ActualSize => NavigationAction::ActualSize,
        NavigationCommand::FitWidth => NavigationAction::FitWidth,
    }
}

impl NavigationCommand {
    /// How a view with this configuration answers.
    pub fn action(self, config: &PdfReaderConfig) -> (action: NavigationAction)
        ensures
            action == answer(self, *config),
    {
        let zero = FloatBits(0);
        match self {
            NavigationCommand::ScrollUp => NavigationAction::ScrollBy(
                ScrollOffset { x: zero, y: config.scroll_step.negated() },
            ),
            NavigationCommand::ScrollDown => NavigationAction::ScrollBy(
                ScrollOffset { x: zero, y: config.scroll_step },
            ),
            NavigationCommand::ScrollLeft => NavigationAction::ScrollBy(
                ScrollOffset { x: config.scroll_step.negated(), y: zero },
            ),
            NavigationCommand::ScrollRight => NavigationAction::ScrollBy(
                ScrollOffset { x: config.scroll_step, y: zero },
            ),
            NavigationCommand::PageUp => NavigationAction::ScrollByHeight {
                fraction: config.page_scroll_fraction.negated(),
            },
            NavigationCommand::PageDown => NavigationAction::ScrollByHeight {
                fraction: config.page_scroll_fraction,
            },
            NavigationCommand::FirstPage => NavigationAction::ToStart,
            NavigationCommand::LastPage => NavigationAction::ToEnd,
            NavigationCommand::ZoomIn => NavigationAction::ZoomBy(config.zoom_step),
            NavigationCommand::ZoomOut => NavigationAction::ZoomBack(config.zoom_step),
            NavigationCommand::ActualSize => NavigationAction::ActualSize,
            NavigationCommand::FitWidth => NavigationAction::FitWidth,
        }
    }
}

/// Within its bounds a configuration makes down commands move down and up commands up by
/// the same amount: by a page fraction above zero for pages, and by a step above zero on
/// the axis of the command alone for lines. Zooming in multiplies and zooming out divides
/// by the same factor above one. The first page is at the start, the last at the end.
pub proof fn law_commands_move_the_way_they_say(config: PdfReaderConfig)
    ensures
        ({
            let used = config.in_bounds();
            &&& (answer(NavigationCommand::PageDown, used), answer(
                NavigationCommand::PageUp,
                used,
            )) matches (
                NavigationAction::ScrollByHeight { fraction: down },
                NavigationAction::ScrollByHeight { fraction: up },
            ) && 0 < down.rank() <= ONE_BITS && up.rank() == -down.rank() && down
                == used.page_scroll_fraction && up.finite()
            &&& (answer(NavigationCommand::ScrollDown, used), answer(
                NavigationCommand::ScrollUp,
                used,
            )) matches (NavigationAction::ScrollBy(down), NavigationAction::ScrollBy(up))
                && down.x.rank() == 0 && up.x.rank() == 0 && down.y.rank() > 0 && up.y.rank()
                == -down.y.rank() && down.y == used.scroll_step && up.y.finite()
            &&& (answer(NavigationCommand::ScrollRight, used), answer(
                NavigationCommand::ScrollLeft,
                used,
            )) matches (NavigationAction::ScrollBy(right), NavigationAction::ScrollBy(left))
                && right.y.rank() == 0 && left.y.rank() == 0 && right.x.rank() > 0
                && left.x.rank() == -right.x.rank() && right.x == used.scroll_step
                && left.x.finite()
            &&& (answer(NavigationCommand::ZoomIn, used), answer(
                NavigationCommand::ZoomOut,
                used,
            )) matches (NavigationAction::ZoomBy(closer), NavigationAction::ZoomBack(farther))
                && closer == farther && closer.finite() && closer.rank() > ONE_BITS && closer
                == used.zoom_step
            &&& answer(NavigationCommand::FirstPage, used) is ToStart
            &&& answer(NavigationCommand::LastPage, used) is ToEnd
            &&& answer(NavigationCommand::ActualSize, used) is ActualSize
            &&& answer(NavigationCommand::FitWidth, used) is FitWidth
        }),
{
}

/// No two commands are answered alike.
pub proof fn law_commands_are_told_apart(
    config: PdfReaderConfig,
    a: NavigationCommand,
    b: NavigationCommand,
)
    requires
        answer(a, config.in_bounds()) == answer(b, config.in_bounds()),
    ensures
        a == b,
{
}

/// A wheel moves the view against its turn: each axis by the opposite of what the wheel
/// turned on it, but for a wheel that turns up or down alone with the shift key, which
/// moves sideways. A device that tells pixels moves the view at once. With the zoom
/// modifier a wheel never scrolls, and a turn that is no finite number does nothing.
pub proof fn law_wheels_move_the_view_against_their_turn(input: WheelInput, action: WheelAction)
    requires
        call_ensures(WheelInput::action, (input,), action),
    ensures
        action is Invalid <==> !(input.delta_x.finite() && input.delta_y.finite()),
        action matches WheelAction::Zoom { delta_y, position } ==> input.zoom_modifier && delta_y
            == input.delta_y && position == input.position,
        action matches WheelAction::Scroll { by, behavior } ==> {
            &&& !input.zoom_modifier
            &&& behavior == ScrollBehavior::Immediate <==> input.precise
            &&& by.x.finite() && by.y.finite()
            &&& !input.shift ==> by.x.rank() == -input.delta_x.rank() && by.y.rank()
                == -input.delta_y.rank()
            &&& input.shift && -0x3400_0000 < input.delta_x.rank() < 0x3400_0000 ==> by.y.rank()
                == 0 && by.x.rank() == -input.delta_y.rank()
            &&& input.shift && (input.delta_x.rank() >= 0x3400_0000 || input.delta_x.rank()
                <= -0x3400_0000) ==> by.x.rank() == -input.delta_x.rank() && by.y.rank()
                == -input.delta_y.rank()
        },
{
}

} // verus!
