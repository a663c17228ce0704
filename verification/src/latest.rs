//! The pruned scan variant: only the most recently stamped immediate child
//! directory of the scan root is searched.
//!
//! This trades completeness for speed: a qualifying file inside a sibling
//! that is not the latest child is invisible to this variant.  That loss is
//! deliberate and documented; callers who need full coverage must not select
//! it.

use vstd::prelude::*;
use crate::fs_model::{is_recent, meta_qualifies, timestamp_of, ts_for, FsKind, FsNode, ScanWarning};
use crate::policy::{ScanPolicy, TimestampKind};
use crate::scanner::{scan, scan_spec, scan_warns, ScanOutcome};

verus! {

/// Whether a child can be selected as the latest subdirectory: it must be a
/// directory whose requested timestamp is readable.
pub open spec fn is_latest_candidate(n: FsNode, kind: TimestampKind) -> bool {
    n.kind is Dir && ts_for(n.meta, kind) is Some
}

/// The timestamp a candidate is ranked by.
pub open spec fn candidate_ts(n: FsNode, kind: TimestampKind) -> i64
    recommends
        is_latest_candidate(n, kind),
{
    ts_for(n.meta, kind)->0
}

/// The selected index among the first `n` children: the earliest index whose
/// timestamp is maximal (a later child replaces the selection only when its
/// timestamp is strictly greater).  `None` when no candidate stands there.
pub open spec fn best_latest_upto(children: Seq<FsNode>, kind: TimestampKind, n: int) -> Option<
    int,
>
    decreases n,
{
    if n <= 0 {
        None
    } else {
        let prev = best_latest_upto(children, kind, n - 1);
        if is_latest_candidate(children[n - 1], kind) {
            match prev {
                None => Some(n - 1),
                Some(j) => {
                    if candidate_ts(children[n - 1], kind) > candidate_ts(children[j], kind) {
                        Some(n - 1)
                    } else {
                        Some(j)
                    }
                },
            }
        } else {
            prev
        }
    }
}

/// The index of the latest immediate child directory, if any.
pub open spec fn latest_child_index(children: Seq<FsNode>, kind: TimestampKind) -> Option<int> {
    best_latest_upto(children, kind, children.len() as int)
}

/// The warnings the selection pass collects over the first `n` children: one
/// per child directory whose requested timestamp is unavailable.
pub open spec fn selection_warns(children: Seq<FsNode>, kind: TimestampKind, n: int) -> Seq<
    ScanWarning,
>
    decreases n,
{
    if n <= 0 {
        Seq::empty()
    } else {
        selection_warns(children, kind, n - 1) + (if children[n - 1].kind is Dir && ts_for(
            children[n - 1].meta,
            kind,
        ) is None {
            seq![ScanWarning::TimestampUnavailable]
        } else {
            Seq::empty()
        })
    }
}

/// The depth bound handed to the traversal of the selected child: one level
/// was consumed by the selection step, but the bound never drops below one,
/// so the selected child's own entries always stay reachable.
pub open spec fn adjusted_depth(d: Option<usize>) -> Option<usize> {
    match d {
        None => None,
        Some(k) => if k > 1 {
            Some((k - 1) as usize)
        } else {
            Some(1usize)
        },
    }
}

/// The policy the selected child is scanned under.
pub open spec fn adjusted_policy(p: ScanPolicy) -> ScanPolicy {
    ScanPolicy { max_depth: adjusted_depth(p.max_depth), ..p }
}

/// What the pruned scan of `root` finds: the fast path answers `true` when
/// the root's own timestamp qualifies (a directory's timestamp moves when an
/// entry is created or renamed in it); otherwise the latest immediate child
/// directory is selected and fully scanned under the adjusted depth bound.
pub open spec fn latest_scan_spec(root: FsNode, policy: ScanPolicy) -> bool {
    match root.kind {
        FsKind::File => meta_qualifies(root.meta, policy),
        FsKind::Dir { via_symlink, accessible, children } => {
            ||| meta_qualifies(root.meta, policy)
            ||| (accessible && (latest_child_index(children@, policy.timestamp_kind) matches Some(
                i,
            ) && scan_spec(children@[i], adjusted_policy(policy))))
        },
    }
}

/// The warnings a completed (negative) pruned scan collects: none when the
/// fast path answers, one when the root cannot be enumerated, otherwise the
/// selection pass's warnings followed by the selected child's scan warnings.
pub open spec fn latest_warns(root: FsNode, policy: ScanPolicy) -> Seq<ScanWarning> {
    match root.kind {
        FsKind::File => Seq::empty(),
        FsKind::Dir { via_symlink, accessible, children } => {
            if meta_qualifies(root.meta, policy) {
                Seq::empty()
            } else if !accessible {
                seq![ScanWarning::DirUnreadable]
            } else {
                selection_warns(children@, policy.timestamp_kind, children@.len() as int) + (
                match latest_child_index(children@, policy.timestamp_kind) {
                    None => Seq::<ScanWarning>::empty(),
                    Some(i) => scan_warns(children@[i], adjusted_policy(policy)),
                })
            }
        },
    }
}

/// What the selection over the first `n` children guarantees.
proof fn lemma_best_upto_props(children: Seq<FsNode>, kind: TimestampKind, n: int)
    requires
        0 <= n <= children.len(),
    ensures
        best_latest_upto(children, kind, n) is None ==> forall|j: int|
            0 <= j < n ==> !is_latest_candidate(children[j], kind),
        best_latest_upto(children, kind, n) matches Some(i) ==> 0 <= i < n
            && is_latest_candidate(children[i], kind),
        best_latest_upto(children, kind, n) matches Some(i) ==> forall|j: int|
            0 <= j < n && is_latest_candidate(children[j], kind) ==> candidate_ts(
                children[j],
                kind,
            ) <= candidate_ts(children[i], kind),
        best_latest_upto(children, kind, n) matches Some(i) ==> forall|j: int|
            0 <= j < i && is_latest_candidate(children[j], kind) ==> candidate_ts(
                children[j],
                kind,
            ) < candidate_ts(children[i], kind),
    decreases n,
{
    if n > 0 {
        lemma_best_upto_props(children, kind, n - 1);
    }
}

/// The deterministic tie rule of the selection step, stated once for the
/// whole child list: when a latest child is selected it is a candidate with
/// the maximal timestamp, and the earliest such candidate — a later child
/// with merely an equal timestamp never displaces it; when none is selected
/// there is no candidate at all.
pub proof fn lemma_latest_selection(children: Seq<FsNode>, kind: TimestampKind)
    ensures
        latest_child_index(children, kind) is None ==> forall|j: int|
            0 <= j < children.len() ==> !is_latest_candidate(children[j], kind),
        latest_child_index(children, kind) matches Some(i) ==> 0 <= i < children.len()
            && is_latest_candidate(children[i], kind),
        latest_child_index(children, kind) matches Some(i) ==> forall|j: int|
            0 <= j < children.len() && is_latest_candidate(children[j], kind) ==> candidate_ts(
                children[j],
                kind,
            ) <= candidate_ts(children[i], kind),
        latest_child_index(children, kind) matches Some(i) ==> forall|j: int|
            0 <= j < i && is_latest_candidate(children[j], kind) ==> candidate_ts(
                children[j],
                kind,
            ) < candidate_ts(children[i], kind),
{
    lemma_best_upto_props(children, kind, children.len() as int);
}

/// Selects the latest immediate child directory of a scan root, warning for
/// each child directory whose requested timestamp is unreadable.
pub fn find_latest_subdir(
    children: &Vec<FsNode>,
    kind: TimestampKind,
    warnings: &mut Vec<ScanWarning>,
) -> (r: Option<usize>)
    ensures
        match r {
            None => latest_child_index(children@, kind) is None,
            Some(i) => i < children@.len() && latest_child_index(children@, kind) == Some(i as int),
        },
        final(warnings)@ == old(warnings)@ + selection_warns(
            children@,
            kind,
            children@.len() as int,
        ),
{
    let mut best_idx: Option<usize> = None;
    let mut best_ts: i64 = 0;
    let mut i: usize = 0;
    while i < children.len()
        invariant
            0 <= i <= children.len(),
            match best_idx {
                None => best_latest_upto(children@, kind, i as int) is None,
                Some(j) => {
                    &&& best_latest_upto(children@, kind, i as int) == Some(j as int)
                    &&& j < i
                    &&& is_latest_candidate(children@[j as int], kind)
                    &&& best_ts == candidate_ts(children@[j as int], kind)
                },
            },
            warnings@ == old(warnings)@ + selection_warns(children@, kind, i as int),
        decreases children.len() - i,
    {
        let child = &children[i];
        let is_dir = match &child.kind {
            FsKind::Dir { .. } => true,
            FsKind::File => false,
        };
        if is_dir {
            match timestamp_of(&child.meta, kind) {
                Some(t) => {
                    match best_idx {
                        None => {
                            best_idx = Some(i);
                            best_ts = t;
                        },
                        Some(_) => {
                            if t > best_ts {
                                best_idx = Some(i);
                                best_ts = t;
                            }
                        },
                    }
                },
                None => {
                    warnings.push(ScanWarning::TimestampUnavailable);
                },
            }
        }
        proof {
            assert(selection_warns(children@, kind, i as int + 1) == selection_warns(
                children@,
                kind,
                i as int,
            ) + (if children@[i as int].kind is Dir && ts_for(children@[i as int].meta, kind)
                is None {
                seq![ScanWarning::TimestampUnavailable]
            } else {
                Seq::<ScanWarning>::empty()
            }));
            assert(warnings@ =~= old(warnings)@ + selection_warns(children@, kind, i as int + 1));
        }
        i = i + 1;
    }
    best_idx
}

/// Pruned scan of the entry at `root`: fast path on the root's own
/// timestamp, then a full scan of the latest immediate child directory under
/// the adjusted depth bound.  `found` is exactly [`latest_scan_spec`]; on a
/// negative scan the warnings are exactly [`latest_warns`].
pub fn scan_latest_only(root: &FsNode, policy: &ScanPolicy) -> (r: ScanOutcome)
    ensures
        r.found == latest_scan_spec(*root, *policy),
        !r.found ==> r.warnings@ == latest_warns(*root, *policy),
{
    let mut warnings: Vec<ScanWarning> = Vec::new();
    match &root.kind {
        FsKind::File => {
            let found = is_recent(&root.meta, policy);
            ScanOutcome { found, warnings }
        },
        FsKind::Dir { via_symlink: _, accessible, children } => {
            if is_recent(&root.meta, policy) {
                return ScanOutcome { found: true, warnings };
            }
            if !*accessible {
                warnings.push(ScanWarning::DirUnreadable);
                return ScanOutcome { found: false, warnings };
            }
            match find_latest_subdir(children, policy.timestamp_kind, &mut warnings) {
                None => {
                    proof {
                        assert(warnings@ =~= latest_warns(*root, *policy));
                    }
                    ScanOutcome { found: false, warnings }
                },
                Some(i) => {
                    let adjusted = ScanPolicy {
                        max_depth: match policy.max_depth {
                            None => None,
                            Some(k) => if k > 1 {
                                Some(k - 1)
                            } else {
                                Some(1)
                            },
                        },
                        ..*policy
                    };
                    assert(adjusted == adjusted_policy(*policy));
                    let mut inner = scan(&children[i], &adjusted);
                    let found = inner.found;
                    warnings.append(&mut inner.warnings);
                    proof {
                        if !found {
                            assert(warnings@ =~= latest_warns(*root, *policy));
                        }
                    }
                    ScanOutcome { found, warnings }
                },
            }
        },
    }
}

} // verus!
