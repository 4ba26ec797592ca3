//! Engine-neutral document runtime: cancellation, sessions, demands and the
//! bounded queues that order them.

pub mod cache;
pub mod cancellation;
pub mod demand;
pub mod engine;
pub mod managed_document;
pub mod owner;
pub mod priority;
pub mod scheduler;
pub mod session;
pub mod supervisor;
pub mod work_queue;
