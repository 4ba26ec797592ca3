//! What a tab shows.

use crate::float_bits::{FloatBits, ONE_BITS};
use crate::text::chars_of;
use vstd::prelude::*;

verus! {

/// Titles up to this many characters stand still on a card.
pub const STILL_TITLE_CHARACTERS: usize = 31;

/// What is carried along when a tab is dragged.
#[derive(Clone, Debug, PartialEq, Eq)]
pub struct TabDragPayload {
    pub source_window: u64,
    pub tab: u64,
    pub view: u64,
    pub title: String,
}

impl TabDragPayload {
    /// A tab that is dragged.
    pub fn new(source_window: u64, tab: u64, view: u64, title: String) -> (payload: TabDragPayload)
        ensures
            payload == (TabDragPayload { source_window, tab, view, title }),
    {
        TabDragPayload { source_window, tab, view, title }
    }
}

/// The second half of a tab that shows two views.
#[derive(Clone, Debug, PartialEq, Eq)]
pub struct TabSegmentPresentation {
    pub view: u64,
    pub title: String,
    pub detail: String,
}

/// What a tab shows.
#[derive(Clone, Debug, PartialEq, Eq)]
pub struct TabPresentation {
    pub view: u64,
    pub title: String,
    pub detail: String,
    pub drag: Option<TabDragPayload>,
    pub recently_moved: bool,
    pub secondary: Option<TabSegmentPresentation>,
    /// Which half has the focus.
    pub active_segment: usize,
    /// Which half is losing it.
    pub outgoing_segment: Option<usize>,
    /// How far the change has come, from zero to one.
    pub segment_transition: FloatBits,
}

/// One of the two halves.
pub open spec fn half(segment: usize) -> usize {
    if segment == 0 {
        0
    } else {
        1
    }
}

impl TabPresentation {
    /// The halves are halves, and the change is between its start and its end.
    pub open spec fn wf(self) -> bool {
        &&& self.active_segment <= 1
        &&& self.outgoing_segment matches Some(segment) ==> segment <= 1
        &&& self.segment_transition.in_unit_range()
    }

    /// A tab with one view.
    pub fn new(title: String, detail: String) -> (tab: TabPresentation)
        ensures
            tab.wf(),
            tab == (TabPresentation {
                view: 0,
                title,
                detail,
                drag: None,
                recently_moved: false,
                secondary: None,
                active_segment: 0,
                outgoing_segment: None,
                segment_transition: FloatBits(ONE_BITS),
            }),
    {
        TabPresentation {
            view: 0,
            title,
            detail,
            drag: None,
            recently_moved: false,
            secondary: None,
            active_segment: 0,
            outgoing_segment: None,
            segment_transition: FloatBits(ONE_BITS),
        }
    }

    /// The tab with the view that it shows.
    pub fn view(self, view: u64) -> (tab: TabPresentation)
        ensures
            tab == (TabPresentation { view, ..self }),
    {
        TabPresentation { view, ..self }
    }

    /// The tab with what is carried along when it is dragged.
    pub fn draggable(self, payload: TabDragPayload) -> (tab: TabPresentation)
        ensures
            tab == (TabPresentation { drag: Some(payload), ..self }),
    {
        TabPresentation { drag: Some(payload), ..self }
    }

    /// The tab as one that has just been moved, or not.
    pub fn recently_moved(self, recently_moved: bool) -> (tab: TabPresentation)
        ensures
            tab == (TabPresentation { recently_moved, ..self }),
    {
        TabPresentation { recently_moved, ..self }
    }

    /// The tab with a second half.
    pub fn split(
        self,
        view: u64,
        title: String,
        detail: String,
        active_segment: usize,
    ) -> (tab: TabPresentation)
        ensures
            tab == (TabPresentation {
                secondary: Some(TabSegmentPresentation { view, title, detail }),
                active_segment: half(active_segment),
                ..self
            }),
            self.wf() ==> tab.wf(),
    {
        TabPresentation {
            secondary: Some(TabSegmentPresentation { view, title, detail }),
            active_segment: if active_segment == 0 {
                0
            } else {
                1
            },
            ..self
        }
    }

    /// The tab while the focus goes from one half to the other.
    pub fn segment_transition(self, outgoing: Option<usize>, progress: FloatBits) -> (tab:
        TabPresentation)
        ensures
            tab == (TabPresentation {
                outgoing_segment: match outgoing {
                    Some(segment) => Some(half(segment)),
                    None => None,
                },
                segment_transition: if progress.finite() {
                    progress.within(FloatBits(0), FloatBits(ONE_BITS))
                } else {
                    FloatBits(ONE_BITS)
                },
                ..self
            }),
            self.wf() ==> tab.wf(),
    {
        let outgoing_segment = match outgoing {
            Some(segment) => Some(
                if segment == 0 {
                    0usize
                } else {
                    1usize
                },
            ),
            None => None,
        };
        let segment_transition = if progress.is_finite() {
            progress.clamped(FloatBits(0), FloatBits(ONE_BITS))
        } else {
            FloatBits(ONE_BITS)
        };
        TabPresentation { outgoing_segment, segment_transition, ..self }
    }

    /// How strongly a half of the tab stands out.
    pub fn emphasis(&self, tab_is_active: bool, segment: usize) -> (emphasis: SegmentEmphasis)
        ensures
            emphasis == if !tab_is_active {
                SegmentEmphasis::Plain
            } else if self.active_segment == segment {
                SegmentEmphasis::Incoming
            } else if self.outgoing_segment == Some(segment) {
                SegmentEmphasis::Outgoing
            } else {
                SegmentEmphasis::Plain
            },
    {
        if !tab_is_active {
            return SegmentEmphasis::Plain;
        }
        if self.active_segment == segment {
            return SegmentEmphasis::Incoming;
        }
        match self.outgoing_segment {
            Some(outgoing) => if outgoing == segment {
                SegmentEmphasis::Outgoing
            } else {
                SegmentEmphasis::Plain
            },
            None => SegmentEmphasis::Plain,
        }
    }
}

/// How strongly a half of a tab stands out.
#[derive(Clone, Copy, Debug, PartialEq, Eq, Structural)]
pub enum SegmentEmphasis {
    /// Not at all.
    Plain,
    /// As far as the change has come.
    Incoming,
    /// As far as the change has still to go.
    Outgoing,
}

/// Whether a line stands between a tab and the next: not beside the one that is
/// shown, and not behind the last.
pub fn shows_separator(index: usize, tab_count: usize, active: usize) -> (shows: bool)
    requires
        index < tab_count,
    ensures
        shows == (index != active && index + 1 < tab_count && index + 1 != active),
{
    index != active && index + 1 < tab_count && index + 1 != active
}

/// How many characters of a title do not fit on a card. A title with any moves
/// to and fro.
pub fn title_overflow(title: &str) -> (overflow: usize)
    ensures
        overflow == if title@.len() > STILL_TITLE_CHARACTERS {
            title@.len() - STILL_TITLE_CHARACTERS
        } else {
            0
        },
{
    let count: usize = chars_of(title).len();
    if count > STILL_TITLE_CHARACTERS {
        count - STILL_TITLE_CHARACTERS
    } else {
        0
    }
}

/// A line stands behind a tab if and only if another tab follows and neither of the two is
/// the one that is shown.
pub proof fn law_lines_stand_between_tabs_at_rest(
    index: usize,
    tab_count: usize,
    active: usize,
    shows: bool,
)
    requires
        index < tab_count,
        call_ensures(shows_separator, (index, tab_count, active), shows),
    ensures
        shows ==> index + 1 < tab_count && active != index && active != index + 1,
        index + 1 < tab_count && active != index && active != index + 1 ==> shows,
{
}

/// A title moves if and only if it has more than 31 characters, by as many as are more.
pub proof fn law_long_titles_move(title: &str, overflow: usize)
    requires
        call_ensures(title_overflow, (title,), overflow),
    ensures
        overflow == 0 <==> title@.len() <= 31,
        overflow > 0 ==> overflow + 31 == title@.len(),
{
}

/// Only halves of a tab that is shown stand out: the one that has the focus, and then the
/// one that is losing it.
pub proof fn law_the_focused_half_stands_out(
    tab: TabPresentation,
    segment: usize,
    shown: SegmentEmphasis,
    other: SegmentEmphasis,
)
    requires
        call_ensures(TabPresentation::emphasis, (&tab, true, segment), shown),
        call_ensures(TabPresentation::emphasis, (&tab, false, segment), other),
    ensures
        other is Plain,
        shown is Incoming <==> segment == tab.active_segment,
        shown is Outgoing <==> segment != tab.active_segment && tab.outgoing_segment == Some(
            segment,
        ),
{
}

/// The halves of a tab are the first and the second, and a change between them is as far as
/// it is said to be, from its start to its end; where that is no number it is at its end.
pub proof fn law_changes_are_between_the_halves(
    tab: TabPresentation,
    outgoing: Option<usize>,
    progress: FloatBits,
    changed: TabPresentation,
)
    requires
        call_ensures(TabPresentation::segment_transition, (tab, outgoing, progress), changed),
    ensures
        outgoing == Some(0usize) ==> changed.outgoing_segment == Some(0usize),
        outgoing matches Some(segment) ==> (segment >= 1 ==> changed.outgoing_segment == Some(
            1usize,
        )),
        outgoing is None ==> changed.outgoing_segment is None,
        0 <= changed.segment_transition.rank() <= 0x3f80_0000,
        progress.finite() && 0 <= progress.rank() <= 0x3f80_0000 ==> changed.segment_transition
            == progress,
        !progress.finite() ==> changed.segment_transition.rank() == 0x3f80_0000,
        changed.active_segment == tab.active_segment && changed.view == tab.view && changed.title
            == tab.title,
        half(0) == 0,
        half(1) == 1,
{
}

} // verus!
