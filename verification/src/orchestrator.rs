//! The per-cycle orchestration over a monitored root.
//!
//! Each cycle is a pure function of the snapshot and the policy: enumerate
//! the root's immediate child directories, decide each one with the scan
//! variant the policy selects, and aggregate the verdicts into an activity
//! mapping.  No state survives from one cycle to the next.

use vstd::prelude::*;
use crate::activity::{
    lemma_map_of_prefix_congruent, map_of, map_of_prefix, ActivityResult, SubdirStatus,
};
use crate::batch::{batched_warns, scan_batched};
use crate::fs_model::{FsKind, FsNode, ScanWarning};
use crate::latest::{latest_scan_spec, latest_warns, scan_latest_only};
use crate::policy::{ConcurrencyMode, ScanPolicy};
use crate::scanner::{scan, scan_spec, scan_warns, ScanOutcome};

verus! {

/// Why a cycle produced an empty mapping without scanning anything.
#[derive(Clone, Copy, PartialEq, Eq, Structural, Debug)]
pub enum RootError {
    /// No snapshot of the root exists: the path is missing.
    Missing,
    /// The root exists but is not a directory that can be enumerated.
    Unreadable,
}

/// Everything one check cycle produces.
pub struct CycleOutcome {
    /// The per-subdirectory activity mapping; empty when `error` is set.
    pub result: ActivityResult,
    /// The root-level failure, if any.  The caller logs it and carries on:
    /// a cycle never aborts the process.
    pub error: Option<RootError>,
    /// The enumeration warnings: one per immediate child directory whose
    /// name cannot be decoded as text.  Per-scan warnings are reported by
    /// the scan functions themselves.
    pub warnings: Vec<ScanWarning>,
}

/// Whether an immediate child of the root is scanned under the policy's
/// selected variant: pruned when `latest_subdir_only`, full-tree otherwise
/// (the batched variant answers exactly like the full-tree one).
pub open spec fn subdir_active(child: FsNode, policy: ScanPolicy) -> bool {
    if policy.latest_subdir_only {
        latest_scan_spec(child, policy)
    } else {
        scan_spec(child, policy)
    }
}

/// The warnings the selected scan variant reports on a completed (negative)
/// scan.
pub open spec fn subdir_warns(child: FsNode, policy: ScanPolicy) -> Seq<ScanWarning> {
    if policy.latest_subdir_only {
        latest_warns(child, policy)
    } else if policy.batch_mode {
        batched_warns(child, policy)
    } else {
        scan_warns(child, policy)
    }
}

/// Whether a child of the root gets an entry in the mapping: it must be a
/// directory and its name must be decodable.
pub open spec fn is_entry(child: FsNode) -> bool {
    child.kind is Dir && child.name is Some
}

/// The mapping described by the first `n` children of the root.
pub open spec fn cycle_map_prefix(children: Seq<FsNode>, policy: ScanPolicy, n: int) -> Map<
    Seq<char>,
    bool,
>
    decreases n,
{
    if n <= 0 {
        Map::empty()
    } else {
        let m = cycle_map_prefix(children, policy, n - 1);
        if is_entry(children[n - 1]) {
            m.insert(children[n - 1].name->0@, subdir_active(children[n - 1], policy))
        } else {
            m
        }
    }
}

/// The activity mapping of one cycle over the root's children.
pub open spec fn cycle_map(children: Seq<FsNode>, policy: ScanPolicy) -> Map<Seq<char>, bool> {
    cycle_map_prefix(children, policy, children.len() as int)
}

/// The verdicts of one cycle, in enumeration order.
pub open spec fn cycle_records_prefix(children: Seq<FsNode>, policy: ScanPolicy, n: int) -> Seq<
    SubdirStatus,
>
    decreases n,
{
    if n <= 0 {
        Seq::empty()
    } else {
        cycle_records_prefix(children, policy, n - 1) + (if is_entry(children[n - 1]) {
            seq![
                SubdirStatus {
                    name: children[n - 1].name->0,
                    has_recent_activity: subdir_active(children[n - 1], policy),
                },
            ]
        } else {
            Seq::empty()
        })
    }
}

/// The verdicts of one whole cycle, in enumeration order.
pub open spec fn cycle_records(children: Seq<FsNode>, policy: ScanPolicy) -> Seq<SubdirStatus> {
    cycle_records_prefix(children, policy, children.len() as int)
}

/// The enumeration warnings over the first `n` children: one per child
/// directory whose name cannot be decoded.
pub open spec fn enum_warns_prefix(children: Seq<FsNode>, n: int) -> Seq<ScanWarning>
    decreases n,
{
    if n <= 0 {
        Seq::empty()
    } else {
        enum_warns_prefix(children, n - 1) + (if children[n - 1].kind is Dir && children[n
            - 1].name is None {
            seq![ScanWarning::NameUndecodable]
        } else {
            Seq::empty()
        })
    }
}

/// The enumeration warnings of one whole cycle.
pub open spec fn enum_warns(children: Seq<FsNode>) -> Seq<ScanWarning> {
    enum_warns_prefix(children, children.len() as int)
}

/// Whether the snapshot of the root can be enumerated at all.
pub open spec fn enumerable(root: FsNode) -> bool {
    root.kind matches FsKind::Dir { accessible, .. } && accessible
}

/// The immediate children of an enumerable root.
pub open spec fn root_children(root: FsNode) -> Seq<FsNode>
    recommends
        root.kind is Dir,
{
    root.kind->children@
}

/// Aggregating the verdicts in enumeration order describes exactly the
/// cycle's mapping.
pub proof fn lemma_cycle_records_map(children: Seq<FsNode>, policy: ScanPolicy, n: int)
    requires
        0 <= n <= children.len(),
    ensures
        map_of(cycle_records_prefix(children, policy, n)) == cycle_map_prefix(children, policy, n),
    decreases n,
{
    if n > 0 {
        lemma_cycle_records_map(children, policy, n - 1);
        let prev = cycle_records_prefix(children, policy, n - 1);
        let whole = cycle_records_prefix(children, policy, n);
        if is_entry(children[n - 1]) {
            let rec = SubdirStatus {
                name: children[n - 1].name->0,
                has_recent_activity: subdir_active(children[n - 1], policy),
            };
            assert(whole =~= prev.push(rec));
            lemma_map_of_prefix_congruent(prev.push(rec), prev, prev.len() as int);
            assert(map_of(prev.push(rec)) == map_of_prefix(prev.push(rec), prev.len() as int)
                .insert(rec.name@, rec.has_recent_activity));
        } else {
            assert(whole =~= prev);
        }
    }
}

/// Scans one immediate child of the root with the variant the policy
/// selects.  `found` is exactly [`subdir_active`]; on a negative scan the
/// warnings are exactly [`subdir_warns`].
pub fn has_recent_files(root: &FsNode, policy: &ScanPolicy) -> (r: ScanOutcome)
    ensures
        r.found == subdir_active(*root, *policy),
        !r.found ==> r.warnings@ == subdir_warns(*root, *policy),
{
    if policy.latest_subdir_only {
        scan_latest_only(root, policy)
    } else if policy.batch_mode {
        scan_batched(root, policy)
    } else {
        scan(root, policy)
    }
}

/// Enumerates the root's children and scans each entry, producing the
/// verdicts in enumeration order together with the enumeration warnings.
/// This is the gather phase of the concurrent and parallel modes: each scan
/// is independent of every other, so the verdicts may be computed in any
/// scheduling, and [`crate::activity::lemma_aggregation_order_irrelevant`]
/// lets them be merged in any completion order.
pub fn scan_entries(children: &Vec<FsNode>, policy: &ScanPolicy) -> (r: (
    Vec<SubdirStatus>,
    Vec<ScanWarning>,
))
    ensures
        r.0@ == cycle_records(children@, *policy),
        r.1@ == enum_warns(children@),
{
    let mut records: Vec<SubdirStatus> = Vec::new();
    let mut warnings: Vec<ScanWarning> = Vec::new();
    let mut i: usize = 0;
    while i < children.len()
        invariant
            i <= children.len(),
            records@ == cycle_records_prefix(children@, *policy, i as int),
            warnings@ == enum_warns_prefix(children@, i as int),
        decreases children.len() - i,
    {
        let child = &children[i];
        let is_dir = match &child.kind {
            FsKind::Dir { .. } => true,
            FsKind::File => false,
        };
        if is_dir {
            match &child.name {
                Some(name) => {
                    let outcome = has_recent_files(child, policy);
                    records.push(
                        SubdirStatus { name: name.clone(), has_recent_activity: outcome.found },
                    );
                },
                None => {
                    warnings.push(ScanWarning::NameUndecodable);
                },
            }
        }
        proof {
            assert(records@ =~= cycle_records_prefix(children@, *policy, i as int + 1));
            assert(warnings@ =~= enum_warns_prefix(children@, i as int + 1));
        }
        i = i + 1;
    }
    (records, warnings)
}

/// Merges gathered verdicts into an activity mapping; on a repeated name
/// the later verdict wins.
pub fn aggregate(records: &Vec<SubdirStatus>) -> (r: ActivityResult)
    ensures
        r@ == map_of(records@),
{
    let mut result = ActivityResult::new();
    let mut i: usize = 0;
    while i < records.len()
        invariant
            i <= records.len(),
            result@ == map_of_prefix(records@, i as int),
        decreases records.len() - i,
    {
        result.insert(records[i].name.clone(), records[i].has_recent_activity);
        i = i + 1;
    }
    result
}

/// One check cycle: enumerate the immediate child directories of the root
/// snapshot, decide each with the policy's scan variant, and aggregate the
/// verdicts by name.
///
/// A missing root (`None`) or a root that is no enumerable directory
/// yields an empty mapping and an error signal instead of a failure; the
/// caller is expected to log it and try again next cycle.
///
/// The mapping is the same whatever `mode` says: the sequential mode
/// aggregates as it scans, the concurrent and parallel modes gather all
/// verdicts and merge them in one step, which is where their schedulers
/// differ outside this model.
pub fn check_all(root: Option<&FsNode>, policy: &ScanPolicy, mode: ConcurrencyMode) -> (r:
    CycleOutcome)
    ensures
        r.error is Some <==> !(root matches Some(n) && enumerable(*n)),
        root is None ==> r.error == Some(RootError::Missing),
        (root matches Some(n) && !enumerable(*n)) ==> r.error == Some(RootError::Unreadable),
        r.error is Some ==> r.result@ == Map::<Seq<char>, bool>::empty() && r.warnings@ == Seq::<
            ScanWarning,
        >::empty(),
        root matches Some(n) ==> enumerable(*n) ==> r.result@ == cycle_map(
            root_children(*n),
            *policy,
        ),
        root matches Some(n) ==> enumerable(*n) ==> r.warnings@ == enum_warns(root_children(*n)),
{
    match root {
        None => CycleOutcome {
            result: ActivityResult::new(),
            error: Some(RootError::Missing),
            warnings: Vec::new(),
        },
        Some(node) => match &node.kind {
            FsKind::File => CycleOutcome {
                result: ActivityResult::new(),
                error: Some(RootError::Unreadable),
                warnings: Vec::new(),
            },
            FsKind::Dir { via_symlink: _, accessible, children } => {
                if !*accessible {
                    return CycleOutcome {
                        result: ActivityResult::new(),
                        error: Some(RootError::Unreadable),
                        warnings: Vec::new(),
                    };
                }
                match mode {
                    ConcurrencyMode::Sequential => check_all_sequential(children, policy),
                    ConcurrencyMode::Concurrent | ConcurrencyMode::Parallel => {
                        let (records, warnings) = scan_entries(children, policy);
                        let result = aggregate(&records);
                        proof {
                            lemma_cycle_records_map(children@, *policy, children@.len() as int);
                        }
                        CycleOutcome { result, error: None, warnings }
                    },
                }
            },
        },
    }
}

/// The sequential dispatch: scan each entry and record its verdict at once.
fn check_all_sequential(children: &Vec<FsNode>, policy: &ScanPolicy) -> (r: CycleOutcome)
    ensures
        r.error is None,
        r.result@ == cycle_map(children@, *policy),
        r.warnings@ == enum_warns(children@),
{
    let mut result = ActivityResult::new();
    let mut warnings: Vec<ScanWarning> = Vec::new();
    let mut i: usize = 0;
    while i < children.len()
        invariant
            i <= children.len(),
            result@ == cycle_map_prefix(children@, *policy, i as int),
            warnings@ == enum_warns_prefix(children@, i as int),
        decreases children.len() - i,
    {
        let child = &children[i];
        let is_dir = match &child.kind {
            FsKind::Dir { .. } => true,
            FsKind::File => false,
        };
        if is_dir {
            match &child.name {
                Some(name) => {
                    let outcome = has_recent_files(child, policy);
                    result.insert(name.clone(), outcome.found);
                },
                None => {
                    warnings.push(ScanWarning::NameUndecodable);
                },
            }
        }
        proof {
            assert(warnings@ =~= enum_warns_prefix(children@, i as int + 1));
        }
        i = i + 1;
    }
    CycleOutcome { result, error: None, warnings }
}

/// A cycle is a pure function of the snapshot and the policy: two cycles
/// over an unchanged snapshot under an unchanged threshold describe the
/// same mapping, whatever happened in between.
pub proof fn lemma_cycle_idempotent(
    m1: Map<Seq<char>, bool>,
    m2: Map<Seq<char>, bool>,
    children: Seq<FsNode>,
    policy: ScanPolicy,
)
    requires
        m1 == cycle_map(children, policy),
        m2 == cycle_map(children, policy),
    ensures
        m1 == m2,
{
}

} // verus!
