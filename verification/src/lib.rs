//! Recent-activity detection for a monitored directory tree.
//!
//! The library decides, for each immediate subdirectory of a monitored root,
//! whether it contains a file whose timestamp lies strictly after a sliding
//! threshold.  All decisions are made over an in-memory snapshot of the
//! filesystem metadata ([`fs_model::FsNode`]), so the whole engine is a pure,
//! verified function of the snapshot and the [`policy::ScanPolicy`]; reading
//! the metadata from disk and scheduling the scans is left to the caller.

pub mod activity;
pub mod batch;
pub mod fs_model;
pub mod latest;
pub mod orchestrator;
pub mod policy;
pub mod scanner;
