//! What the parts of a reader tell each other about places in a document.

use crate::float_bits::FloatBits;
use vstd::prelude::*;

verus! {

/// A character of a page, by its place in the page's text.
#[derive(Clone, Copy, Debug, PartialEq, Eq, PartialOrd, Ord, Hash, Structural)]
pub struct TextPosition {
    pub page: usize,
    pub index: usize,
}

/// A selection with its direction.
#[derive(Clone, Copy, Debug, PartialEq, Eq, Hash, Structural)]
pub struct TextSelection {
    pub anchor: TextPosition,
    pub focus: TextPosition,
}

/// A box around text, in fractions of the page.
#[derive(Clone, Copy, Debug, PartialEq, Eq, Hash, Structural)]
pub struct TextBounds {
    pub left: FloatBits,
    pub top: FloatBits,
    pub right: FloatBits,
    pub bottom: FloatBits,
}

/// The color of a cue at the place that was navigated to.
#[derive(Clone, Copy, Debug, PartialEq, Eq, Structural)]
pub enum FocusTone {
    Accent,
    SearchMatch,
}

/// The motion of a cue at the place that was navigated to.
#[derive(Clone, Copy, Debug, PartialEq, Eq, Structural)]
pub enum FocusMotion {
    Sweep,
    Pulse,
}

/// A cue at the place that was navigated to.
#[derive(Clone, Debug, PartialEq, Eq)]
pub struct JumpFocus {
    pub text_runs: Vec<TextBounds>,
    pub tone: FocusTone,
    pub motion: FocusMotion,
}

/// Where a reader is to scroll to, and how the target is to stand in the view.
#[derive(Clone, Debug, PartialEq, Eq)]
pub struct DocumentJump {
    pub page: usize,
    pub x_fraction: Option<FloatBits>,
    pub y_fraction: Option<FloatBits>,
    pub viewport_anchor_y: FloatBits,
    pub center_horizontal: bool,
    pub focus: Option<JumpFocus>,
}

} // verus!
