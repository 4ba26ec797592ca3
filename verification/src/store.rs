//! Where a reader keeps annotations, and what extensions keep beside them.

pub mod annotations;
pub mod digest;
pub mod error;
pub mod extension_storage;
pub mod identity;
pub mod memory;
pub mod service;
pub mod sidecar;
pub mod source_path;
