//! A small HTTP reverse-proxy load balancer core: an endpoint pool with
//! round-robin and least-in-flight selection, a failure-ratio health policy,
//! and the telemetry bookkeeping of the request-forwarding path.

pub mod codes;
pub mod endpoint;
pub mod error;
pub mod forward;
pub mod messages;
pub mod stats;
pub mod store;
