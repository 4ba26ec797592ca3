//! A bounded HTTP client: every hop is checked against an exact policy before
//! and after the network is touched.

pub mod cache;
pub mod cancellation;
pub mod client;
pub mod clock;
pub mod exchange;
pub mod rate;
pub mod error;
pub mod network;
pub mod policy;
pub mod request;
pub mod span;
pub mod transport;
pub mod web_url;
