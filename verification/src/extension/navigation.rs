//! Requests to move a reader to a place in a document.

use crate::document::{DocumentJump, FocusMotion, FocusTone, JumpFocus, TextBounds};
use crate::extension::handle::DocumentHandle;
use crate::extension::snapshot::{
    NormalizedRect, PageIndex, SnapshotRevision, TextSelectionRange,
};
use crate::float_bits::FloatBits;
use vstd::prelude::*;

verus! {

/// The bits of the number one half.
pub const HALF_BITS: u32 = 0x3f00_0000;

/// Text by which a host finds the place on a page.
#[derive(Clone, Debug, PartialEq, Eq)]
pub struct TextTargetHint {
    pub text: String,
    /// Which of several matches, counted from zero.
    pub occurrence: u16,
}

/// A place in a document.
#[derive(Clone, Debug, PartialEq, Eq)]
pub struct DocumentDestination {
    pub page: PageIndex,
    pub x_fraction: Option<FloatBits>,
    pub y_fraction: Option<FloatBits>,
    pub text_range: Option<TextSelectionRange>,
    pub text_hint: Option<TextTargetHint>,
}

impl DocumentDestination {
    /// A page, and no place on it.
    pub fn page(page: PageIndex) -> (destination: DocumentDestination)
        ensures
            destination == (DocumentDestination {
                page,
                x_fraction: None,
                y_fraction: None,
                text_range: None,
                text_hint: None,
            }),
    {
        DocumentDestination {
            page,
            x_fraction: None,
            y_fraction: None,
            text_range: None,
            text_hint: None,
        }
    }

    /// The destination at an exact place.
    pub fn resolved(
        self,
        x_fraction: Option<FloatBits>,
        y_fraction: Option<FloatBits>,
    ) -> (destination: DocumentDestination)
        ensures
            destination == (DocumentDestination { x_fraction, y_fraction, ..self }),
    {
        DocumentDestination { x_fraction, y_fraction, ..self }
    }
}

/// How the target is to stand in the view.
#[derive(Clone, Copy, Debug, PartialEq, Eq, Structural)]
pub struct NavigationPlacement {
    /// From the top of the view (zero) to its bottom (one).
    pub viewport_anchor_y: FloatBits,
    pub center_horizontal: bool,
}

impl Default for NavigationPlacement {
    /// In the middle of the view.
    fn default() -> (placement: Self)
        ensures
            placement == (NavigationPlacement {
                viewport_anchor_y: FloatBits(HALF_BITS),
                center_horizontal: true,
            }),
    {
        NavigationPlacement { viewport_anchor_y: FloatBits(HALF_BITS), center_horizontal: true }
    }
}

/// The color of a cue.
#[derive(Clone, Copy, Debug, Default, PartialEq, Eq, Structural)]
pub enum NavigationFocusTone {
    #[default]
    Accent,
    SearchMatch,
}

impl NavigationFocusTone {
    /// The tone as a reader knows it.
    pub open spec fn tone(self) -> FocusTone {
        match self {
            NavigationFocusTone::Accent => FocusTone::Accent,
            NavigationFocusTone::SearchMatch => FocusTone::SearchMatch,
        }
    }

    /// The tone as a reader knows it.
    pub fn to_focus_tone(self) -> (tone: FocusTone)
        ensures
            tone == self.tone(),
    {
        match self {
            NavigationFocusTone::Accent => FocusTone::Accent,
            NavigationFocusTone::SearchMatch => FocusTone::SearchMatch,
        }
    }
}

/// The motion of a cue.
#[derive(Clone, Copy, Debug, Default, PartialEq, Eq, Structural)]
pub enum NavigationFocusMotion {
    #[default]
    Sweep,
    Pulse,
}

impl NavigationFocusMotion {
    /// The motion as a reader knows it.
    pub open spec fn motion(self) -> FocusMotion {
        match self {
            NavigationFocusMotion::Sweep => FocusMotion::Sweep,
            NavigationFocusMotion::Pulse => FocusMotion::Pulse,
        }
    }

    /// The motion as a reader knows it.
    pub fn to_focus_motion(self) -> (motion: FocusMotion)
        ensures
            motion == self.motion(),
    {
        match self {
            NavigationFocusMotion::Sweep => FocusMotion::Sweep,
            NavigationFocusMotion::Pulse => FocusMotion::Pulse,
        }
    }
}

/// A cue to play once the movement has come to rest.
#[derive(Clone, Debug, PartialEq, Eq)]
pub struct NavigationFocusRequest {
    pub tone: NavigationFocusTone,
    pub motion: NavigationFocusMotion,
    /// Text to point at; with none the place itself is pointed at.
    pub regions: Vec<NormalizedRect>,
}

impl Default for NavigationFocusRequest {
    /// A sweep in the accent color over the place itself.
    fn default() -> (focus: Self)
        ensures
            focus.tone == NavigationFocusTone::Accent,
            focus.motion == NavigationFocusMotion::Sweep,
            focus.regions@.len() == 0,
    {
        NavigationFocusRequest {
            tone: NavigationFocusTone::Accent,
            motion: NavigationFocusMotion::Sweep,
            regions: Vec::new(),
        }
    }
}

/// Asks a reader to move.
#[derive(Clone, Debug, PartialEq, Eq)]
pub struct NavigationRequest {
    pub document: DocumentHandle,
    pub destination: DocumentDestination,
    pub placement: NavigationPlacement,
    pub focus: Option<NavigationFocusRequest>,
}

/// Rectangles as boxes around text, one for one.
pub open spec fn bounds_of(regions: Seq<NormalizedRect>) -> Seq<TextBounds> {
    regions.map(
        |i: int, rect: NormalizedRect|
            TextBounds { left: rect.left, top: rect.top, right: rect.right, bottom: rect.bottom },
    )
}

impl NavigationRequest {
    /// The jump of a reader that this asks for.
    pub fn to_document_jump(&self) -> (jump: DocumentJump)
        ensures
            jump.page == self.destination.page.0,
            jump.x_fraction == self.destination.x_fraction,
            jump.y_fraction == self.destination.y_fraction,
            jump.viewport_anchor_y == self.placement.viewport_anchor_y,
            jump.center_horizontal == self.placement.center_horizontal,
            jump.focus is Some == self.focus is Some,
            jump.focus matches Some(cue) ==> cue.tone == self.focus->Some_0.tone.tone()
                && cue.motion == self.focus->Some_0.motion.motion() && cue.text_runs@ == bounds_of(
                self.focus->Some_0.regions@,
            ),
    {
        let focus = match &self.focus {
            None => None,
            Some(request) => {
                let mut text_runs: Vec<TextBounds> = Vec::new();
                let mut i: usize = 0;
                while i < request.regions.len()
                    invariant
                        i <= request.regions@.len(),
                        text_runs@ == bounds_of(request.regions@).take(i as int),
                    decreases request.regions@.len() - i,
                {
                    text_runs.push(TextBounds::from(request.regions[i]));
                    i += 1;
                }
                assert(text_runs@ =~= bounds_of(request.regions@));
                Some(
                    JumpFocus {
                        text_runs,
                        tone: request.tone.to_focus_tone(),
                        motion: request.motion.to_focus_motion(),
                    },
                )
            },
        };
        DocumentJump {
            page: self.destination.page.as_usize(),
            x_fraction: self.destination.x_fraction,
            y_fraction: self.destination.y_fraction,
            viewport_anchor_y: self.placement.viewport_anchor_y,
            center_horizontal: self.placement.center_horizontal,
            focus,
        }
    }
}

/// Says that a host took a request on.
#[derive(Clone, Debug, PartialEq, Eq)]
pub struct NavigationReceipt {
    pub document: DocumentHandle,
    pub viewport_revision: SnapshotRevision,
    /// The place that the host moves to.
    pub destination: DocumentDestination,
    pub focus_scheduled: bool,
}

/// A reader jumps to the page and the place that it was asked to move to, with the target
/// where it was asked to stand, and points at the same regions in the same way.
pub proof fn law_jumps_go_where_they_were_asked_to(
    request: NavigationRequest,
    jump: DocumentJump,
    i: int,
)
    requires
        call_ensures(NavigationRequest::to_document_jump, (&request,), jump),
    ensures
        jump.page == request.destination.page.0,
        jump.x_fraction == request.destination.x_fraction,
        jump.y_fraction == request.destination.y_fraction,
        jump.viewport_anchor_y == request.placement.viewport_anchor_y,
        jump.center_horizontal == request.placement.center_horizontal,
        jump.focus is Some <==> request.focus is Some,
        jump.focus matches Some(cue) ==> {
            let asked = request.focus->Some_0;
            &&& cue.tone is SearchMatch <==> asked.tone is SearchMatch
            &&& cue.motion is Pulse <==> asked.motion is Pulse
            &&& cue.text_runs@.len() == asked.regions@.len()
            &&& 0 <= i < asked.regions@.len() ==> {
                &&& cue.text_runs@[i].left == asked.regions@[i].left
                &&& cue.text_runs@[i].top == asked.regions@[i].top
                &&& cue.text_runs@[i].right == asked.regions@[i].right
                &&& cue.text_runs@[i].bottom == asked.regions@[i].bottom
            }
        },
{
}

} // verus!
