//! The per-cycle scan policy and its small enumerations.

use vstd::prelude::*;

verus! {

/// Which per-file timestamp a scan inspects.
#[derive(Clone, Copy, PartialEq, Eq, Structural, Debug)]
pub enum TimestampKind {
    /// The last-content-modification instant.
    Modified,
    /// The file-birth instant, where the platform exposes one.
    Created,
}

/// How the orchestrator dispatches the per-subdirectory scans.
///
/// All three modes must produce the same activity mapping for the same
/// snapshot and policy; they differ only in scheduling.
#[derive(Clone, Copy, PartialEq, Eq, Structural, Debug)]
pub enum ConcurrencyMode {
    /// One scan at a time, in enumeration order.
    Sequential,
    /// Every scan dispatched as an independent task; all results are awaited
    /// and then aggregated in one step.
    Concurrent,
    /// Scans spread over a bounded worker pool; each worker writes its result
    /// into its own slot before aggregation.
    Parallel,
}

/// The immutable policy a check cycle runs under.
///
/// It is built once per cycle from the resolved configuration and shared
/// read-only by every scan of that cycle.
#[derive(Clone, Copy, Debug)]
pub struct ScanPolicy {
    /// The absolute instant files are measured against; a file qualifies only
    /// if its timestamp is strictly greater.
    pub threshold_time: i64,
    /// Maximum number of levels below a scan root that may be visited;
    /// `None` means unlimited.
    pub max_depth: Option<usize>,
    /// Whether the traversal descends into directories reached through
    /// symbolic links.
    pub follow_symlinks: bool,
    /// Which timestamp the scan reads.
    pub timestamp_kind: TimestampKind,
    /// Whether a scan root is pruned to its most recently stamped immediate
    /// child directory.
    pub latest_subdir_only: bool,
    /// Whether the full-tree scan gathers all metadata first and checks it in
    /// a second pass; never changes the result, only the access pattern.
    pub batch_mode: bool,
}

} // verus!
