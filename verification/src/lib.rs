//! A capped, deduplicated wallpaper cache with a rotation policy.
//!
//! The crate holds the decisions of a wallpaper pipeline: which image links a
//! page offers, which images are acceptable, which cached files are evicted,
//! which file is shown next and when a refill is due. Network and file access
//! are left to the caller, who feeds the results back in.

pub mod model;
pub mod clock;
pub mod text;
pub mod evict;
pub mod rotate;
pub mod prune;
pub mod schedule;
pub mod extract;
pub mod validate;
pub mod naming;
pub mod prefetch;
pub mod coordinator;
