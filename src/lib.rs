//! Soft deletion: files are moved into a holding area, tracked in a registry
//! keyed by the path the user named, restored on request, and purged once
//! they have been held longer than the retention period.

pub mod registry;
pub mod retention;
pub mod commands;
pub mod shared;
