//! A batched, parallel face-detection pipeline over photo collections:
//! directory scanning, content-addressed file identity, batch dispatch,
//! and result aggregation. The decoding and inference capabilities are
//! outside collaborators reached through narrow trusted interfaces; the
//! discovery, batching, failure-policy and aggregation logic is verified.
pub mod cli;
pub mod schema;
pub mod scan;
pub mod identity;
pub mod batch;
pub mod resize;
pub mod dispatch;
pub mod aggregate;
