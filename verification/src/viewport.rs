//! The view of a document: its bounds, what it asks an engine for, and what it
//! tells its host.
//!
//! Geometry in fractions of pixels is worked out elsewhere. Here are the limits
//! that it is held to, and the decisions that follow from it.

pub mod appearance;
pub mod canvas;
pub mod controller;
pub mod input;
pub mod limits;
pub mod planning;
