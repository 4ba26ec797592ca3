//! Decisions behind the controls of a window: what gives way when there is
//! little room, what a tab shows, and how far something has come into view.

pub mod control_bar;
pub mod style;
pub mod tabs;
pub mod theme;
pub mod transition;
