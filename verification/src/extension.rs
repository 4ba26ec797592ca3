//! The boundary between extensions and a trusted PDF host: opaque handles tied
//! to one generation of a document, bounded snapshots and requests, and the
//! checks that everything from an extension goes through.

pub mod capability;
pub mod error;
pub mod handle;
pub mod ids;
pub mod navigation;
pub mod overlay;
pub mod service;
pub mod snapshot;
pub mod validation;
