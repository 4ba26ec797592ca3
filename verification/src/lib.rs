//! Verified core of a tiled PDF reader: the scheduling, networking, storage
//! and extension rules of the application, stated as contracts and proved.

pub mod document;
pub mod extension;
pub mod float_bits;
pub mod geometry;
pub mod http;
pub mod keyed;
pub mod lock;
pub mod runtime;
pub mod store;
pub mod text;
pub mod text_set;
pub mod ui;
pub mod viewport;
