//! The in-memory model of filesystem metadata that the scans run on.
//!
//! A snapshot holds, as plain values, exactly what the traversal reads from
//! disk: entry names, the two timestamps, whether a directory could be
//! opened, and whether it was reached through a symbolic link.  Timestamps
//! are instants on an absolute integer scale (the same scale as
//! [`crate::policy::ScanPolicy::threshold_time`]); a timestamp that the
//! platform cannot supply is `None`.

use vstd::prelude::*;
use crate::policy::{ScanPolicy, TimestampKind};

verus! {

/// The timestamps recorded for one directory entry.
#[derive(Clone, Copy, Debug)]
pub struct FileMeta {
    /// Last-content-modification instant, if readable.
    pub modified: Option<i64>,
    /// File-birth instant, if the platform exposes one.
    pub created: Option<i64>,
}

/// What kind of entry a snapshot node is.
pub enum FsKind {
    /// A regular file (or a symbolic link to one; following the link is how
    /// its metadata was read).
    File,
    /// A directory.
    Dir {
        /// Whether the directory was reached through a symbolic link.
        via_symlink: bool,
        /// Whether the directory could be opened and enumerated.
        accessible: bool,
        /// Its entries, in enumeration order.
        children: Vec<FsNode>,
    },
}

/// One entry of a filesystem snapshot.
pub struct FsNode {
    /// The entry's base name; `None` when it cannot be decoded as text.
    pub name: Option<String>,
    /// The entry's own timestamps.
    pub meta: FileMeta,
    /// File or directory, with the directory's contents.
    pub kind: FsKind,
}

/// A recoverable per-item condition met during a scan; the item is skipped
/// and the scan continues.
#[derive(Clone, Copy, PartialEq, Eq, Structural, Debug)]
pub enum ScanWarning {
    /// The timestamp kind the policy asks for is not available for an entry.
    TimestampUnavailable,
    /// A directory that should have been enumerated could not be opened.
    DirUnreadable,
    /// An entry's name could not be decoded as text.
    NameUndecodable,
}

/// The timestamp of `meta` named by `kind`.
pub open spec fn ts_for(meta: FileMeta, kind: TimestampKind) -> Option<i64> {
    match kind {
        TimestampKind::Modified => meta.modified,
        TimestampKind::Created => meta.created,
    }
}

/// Reads the timestamp of `meta` named by `kind`.
pub fn timestamp_of(meta: &FileMeta, kind: TimestampKind) -> (r: Option<i64>)
    ensures
        r == ts_for(*meta, kind),
{
    match kind {
        TimestampKind::Modified => meta.modified,
        TimestampKind::Created => meta.created,
    }
}

/// Whether an entry with timestamps `meta` qualifies as recent: the
/// timestamp the policy names must exist and lie strictly after the
/// threshold.
pub open spec fn meta_qualifies(meta: FileMeta, policy: ScanPolicy) -> bool {
    match ts_for(meta, policy.timestamp_kind) {
        Some(t) => t > policy.threshold_time,
        None => false,
    }
}

/// Decides whether an entry with timestamps `meta` qualifies as recent
/// under `policy`.
pub fn is_recent(meta: &FileMeta, policy: &ScanPolicy) -> (b: bool)
    ensures
        b == meta_qualifies(*meta, *policy),
{
    match timestamp_of(meta, policy.timestamp_kind) {
        Some(t) => t > policy.threshold_time,
        None => false,
    }
}

/// Whether a traversal standing at a node with `budget` levels left may
/// visit the node's children.
pub open spec fn descend_ok(budget: Option<usize>) -> bool {
    match budget {
        None => true,
        Some(b) => b >= 1,
    }
}

/// The budget handed to a child after one level was consumed.
pub open spec fn budget_dec(budget: Option<usize>) -> Option<usize>
    recommends
        descend_ok(budget),
{
    match budget {
        None => None,
        Some(b) => Some((b - 1) as usize),
    }
}

/// Whether budget `b1` allows at most as deep a descent as budget `b2`.
pub open spec fn budget_le(b1: Option<usize>, b2: Option<usize>) -> bool {
    match b2 {
        None => true,
        Some(y) => b1 matches Some(x) && x <= y,
    }
}

/// Whether two policies agree on everything a subtree traversal reads
/// besides the depth bound.
pub open spec fn same_scan_fields(p1: ScanPolicy, p2: ScanPolicy) -> bool {
    &&& p1.threshold_time == p2.threshold_time
    &&& p1.follow_symlinks == p2.follow_symlinks
    &&& p1.timestamp_kind == p2.timestamp_kind
}

/// Whether a directory's children are traversed at all: a directory reached
/// through a symbolic link is entered only when the policy says so.
pub open spec fn enter_ok(via_symlink: bool, policy: ScanPolicy) -> bool {
    !via_symlink || policy.follow_symlinks
}

/// Whether the subtree rooted at `node` — an entry already yielded by the
/// traversal, with `budget` levels allowed below it — contains a qualifying
/// file.
pub open spec fn subtree_has_recent(node: FsNode, policy: ScanPolicy, budget: Option<usize>) -> bool
    decreases node,
{
    match node.kind {
        FsKind::File => meta_qualifies(node.meta, policy),
        FsKind::Dir { via_symlink, accessible, children } => {
            &&& enter_ok(via_symlink, policy)
            &&& descend_ok(budget)
            &&& accessible
            &&& exists|i: int|
                0 <= i < children@.len() && subtree_has_recent(
                    children@[i],
                    policy,
                    budget_dec(budget),
                )
        },
    }
}

/// The warnings a traversal of the subtree at `node` collects when it runs
/// to completion, in traversal order: one per visited file whose requested
/// timestamp is unavailable, one per directory that should have been
/// enumerated but could not be opened.
pub open spec fn subtree_warns(node: FsNode, policy: ScanPolicy, budget: Option<usize>) -> Seq<
    ScanWarning,
>
    decreases node, 0int,
{
    match node.kind {
        FsKind::File => {
            if ts_for(node.meta, policy.timestamp_kind) is None {
                seq![ScanWarning::TimestampUnavailable]
            } else {
                Seq::empty()
            }
        },
        FsKind::Dir { via_symlink, accessible, children } => {
            if !enter_ok(via_symlink, policy) || !descend_ok(budget) {
                Seq::empty()
            } else if !accessible {
                seq![ScanWarning::DirUnreadable]
            } else {
                children_warns(children@, policy, budget_dec(budget), 0)
            }
        },
    }
}

/// The concatenated warnings of the subtrees at `children[from..]`.
pub open spec fn children_warns(
    children: Seq<FsNode>,
    policy: ScanPolicy,
    budget: Option<usize>,
    from: int,
) -> Seq<ScanWarning>
    decreases children, children.len() - from,
{
    if from < 0 || from >= children.len() {
        Seq::empty()
    } else {
        subtree_warns(children[from], policy, budget) + children_warns(
            children,
            policy,
            budget,
            from + 1,
        )
    }
}

} // verus!
