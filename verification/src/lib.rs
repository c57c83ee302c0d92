//! Verified core of a modpack installer: URL-derived path resolution, a
//! safe archive-extraction planner, and the idempotent install state machine.

pub mod archive;
pub mod bytes;
pub mod error;
pub mod launcher;
pub mod metadata;
pub mod plan;
pub mod request;
pub mod resolve;
