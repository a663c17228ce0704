//! The leaf scans: does one subtree contain a qualifying file?

use vstd::prelude::*;
use crate::fs_model::{
    budget_dec, budget_le, children_warns, descend_ok, meta_qualifies, same_scan_fields,
    subtree_has_recent, subtree_warns, timestamp_of, ts_for, FsKind, FsNode, ScanWarning,
};
use crate::policy::ScanPolicy;

verus! {

/// What a full-tree scan of `root` finds: the root entry is always visited;
/// below a directory root, `max_depth` levels may be explored.  The symlink
/// gate does not apply to the root itself, which the caller named
/// explicitly.
pub open spec fn scan_spec(root: FsNode, policy: ScanPolicy) -> bool {
    match root.kind {
        FsKind::File => meta_qualifies(root.meta, policy),
        FsKind::Dir { via_symlink, accessible, children } => {
            &&& descend_ok(policy.max_depth)
            &&& accessible
            &&& exists|i: int|
                0 <= i < children@.len() && subtree_has_recent(
                    children@[i],
                    policy,
                    budget_dec(policy.max_depth),
                )
        },
    }
}

/// The warnings a completed full-tree scan of `root` collects, in traversal
/// order.
pub open spec fn scan_warns(root: FsNode, policy: ScanPolicy) -> Seq<ScanWarning> {
    match root.kind {
        FsKind::File => {
            if ts_for(root.meta, policy.timestamp_kind) is None {
                seq![ScanWarning::TimestampUnavailable]
            } else {
                Seq::empty()
            }
        },
        FsKind::Dir { via_symlink, accessible, children } => {
            if !descend_ok(policy.max_depth) {
                Seq::empty()
            } else if !accessible {
                seq![ScanWarning::DirUnreadable]
            } else {
                children_warns(children@, policy, budget_dec(policy.max_depth), 0)
            }
        },
    }
}

/// What one scan reports: the boolean the cycle needs, plus the recoverable
/// conditions met along the way.  A scan never fails as a whole.
pub struct ScanOutcome {
    /// Whether a qualifying file was found.
    pub found: bool,
    /// The per-item warnings collected before the scan ended.  When the scan
    /// short-circuits on a find, later items go unvisited, so the list is
    /// only specified for a completed (negative) scan.
    pub warnings: Vec<ScanWarning>,
}

/// Checks one already-visited entry and, below a directory, the levels that
/// `budget` still allows.  Returns as soon as a qualifying file is found.
fn visit(
    node: &FsNode,
    policy: &ScanPolicy,
    budget: Option<usize>,
    warnings: &mut Vec<ScanWarning>,
) -> (found: bool)
    ensures
        found == subtree_has_recent(*node, *policy, budget),
        !found ==> final(warnings)@ == old(warnings)@ + subtree_warns(*node, *policy, budget),
    decreases *node, 1int,
{
    match &node.kind {
        FsKind::File => {
            match timestamp_of(&node.meta, policy.timestamp_kind) {
                Some(t) => {
                    let q = t > policy.threshold_time;
                    assert(!q ==> warnings@ =~= old(warnings)@ + subtree_warns(
                        *node,
                        *policy,
                        budget,
                    ));
                    q
                },
                None => {
                    warnings.push(ScanWarning::TimestampUnavailable);
                    assert(warnings@ =~= old(warnings)@ + subtree_warns(*node, *policy, budget));
                    false
                },
            }
        },
        FsKind::Dir { via_symlink, accessible, children } => {
            if *via_symlink && !policy.follow_symlinks {
                assert(warnings@ =~= old(warnings)@ + subtree_warns(*node, *policy, budget));
                return false;
            }
            let child_budget: Option<usize> = match budget {
                None => None,
                Some(b) => {
                    if b >= 1 {
                        Some(b - 1)
                    } else {
                        assert(warnings@ =~= old(warnings)@ + subtree_warns(
                            *node,
                            *policy,
                            budget,
                        ));
                        return false;
                    }
                },
            };
            if !*accessible {
                warnings.push(ScanWarning::DirUnreadable);
                assert(warnings@ =~= old(warnings)@ + subtree_warns(*node, *policy, budget));
                return false;
            }
            let found = visit_children(node, children, policy, child_budget, warnings);
            proof {
                if !found {
                    assert(warnings@ == old(warnings)@ + subtree_warns(*node, *policy, budget));
                }
            }
            found
        },
    }
}

/// Scans `children` in order with per-child budget `budget`, short-circuiting
/// on the first find.  `parent` only carries the termination measure.
fn visit_children(
    parent: &FsNode,
    children: &Vec<FsNode>,
    policy: &ScanPolicy,
    budget: Option<usize>,
    warnings: &mut Vec<ScanWarning>,
) -> (found: bool)
    requires
        decreases_to!(*parent => children@),
    ensures
        found == exists|i: int|
            0 <= i < children@.len() && subtree_has_recent(children@[i], *policy, budget),
        !found ==> final(warnings)@ == old(warnings)@ + children_warns(
            children@,
            *policy,
            budget,
            0,
        ),
    decreases *parent, 0int,
{
    let mut i: usize = 0;
    while i < children.len()
        invariant
            0 <= i <= children.len(),
            decreases_to!(*parent => children@),
            forall|j: int| 0 <= j < i ==> !subtree_has_recent(children@[j], *policy, budget),
            old(warnings)@ + children_warns(children@, *policy, budget, 0) == warnings@
                + children_warns(children@, *policy, budget, i as int),
        decreases children.len() - i,
    {
        proof {
            assert(decreases_to!(children@ => children@[i as int]));
        }
        let ghost pre = warnings@;
        if visit(&children[i], policy, budget, warnings) {
            return true;
        }
        proof {
            lemma_seq_add_assoc(
                pre,
                subtree_warns(children@[i as int], *policy, budget),
                children_warns(children@, *policy, budget, i as int + 1),
            );
        }
        i = i + 1;
    }
    proof {
        assert(children_warns(children@, *policy, budget, children@.len() as int)
            =~= Seq::<ScanWarning>::empty());
        assert(warnings@ + Seq::<ScanWarning>::empty() =~= warnings@);
        assert(old(warnings)@ + children_warns(children@, *policy, budget, 0) == warnings@);
    }
    false
}

/// Deepening a subtree traversal never loses a find: whatever a traversal
/// finds under budget `b1`, a traversal with the looser budget `b2` (and an
/// otherwise equal policy) finds too.
pub proof fn lemma_subtree_depth_monotonic(
    node: FsNode,
    p1: ScanPolicy,
    p2: ScanPolicy,
    b1: Option<usize>,
    b2: Option<usize>,
)
    requires
        same_scan_fields(p1, p2),
        budget_le(b1, b2),
    ensures
        subtree_has_recent(node, p1, b1) ==> subtree_has_recent(node, p2, b2),
    decreases node,
{
    if subtree_has_recent(node, p1, b1) {
        match node.kind {
            FsKind::File => {
                assert(meta_qualifies(node.meta, p2));
            },
            FsKind::Dir { via_symlink, accessible, children } => {
                let i = choose|i: int|
                    0 <= i < children@.len() && subtree_has_recent(
                        children@[i],
                        p1,
                        budget_dec(b1),
                    );
                assert(budget_le(budget_dec(b1), budget_dec(b2)));
                lemma_subtree_depth_monotonic(children@[i], p1, p2, budget_dec(b1), budget_dec(b2));
                assert(0 <= i < children@.len() && subtree_has_recent(
                    children@[i],
                    p2,
                    budget_dec(b2),
                ));
            },
        }
    }
}

/// Raising (or removing) the depth bound never loses a find: a full-tree
/// scan that succeeds under `p1.max_depth` succeeds under any policy that
/// differs from `p1` only in a looser depth bound.
pub proof fn lemma_scan_depth_monotonic(root: FsNode, p1: ScanPolicy, p2: ScanPolicy)
    requires
        same_scan_fields(p1, p2),
        budget_le(p1.max_depth, p2.max_depth),
    ensures
        scan_spec(root, p1) ==> scan_spec(root, p2),
{
    if scan_spec(root, p1) {
        match root.kind {
            FsKind::File => {
                assert(meta_qualifies(root.meta, p2));
            },
            FsKind::Dir { via_symlink, accessible, children } => {
                let i = choose|i: int|
                    0 <= i < children@.len() && subtree_has_recent(
                        children@[i],
                        p1,
                        budget_dec(p1.max_depth),
                    );
                assert(budget_le(budget_dec(p1.max_depth), budget_dec(p2.max_depth)));
                lemma_subtree_depth_monotonic(
                    children@[i],
                    p1,
                    p2,
                    budget_dec(p1.max_depth),
                    budget_dec(p2.max_depth),
                );
                assert(0 <= i < children@.len() && subtree_has_recent(
                    children@[i],
                    p2,
                    budget_dec(p2.max_depth),
                ));
            },
        }
    }
}

/// Concatenation of warning lists is associative.
proof fn lemma_seq_add_assoc(a: Seq<ScanWarning>, b: Seq<ScanWarning>, c: Seq<ScanWarning>)
    ensures
        (a + b) + c == a + (b + c),
{
    assert((a + b) + c =~= a + (b + c));
}

/// Full-tree scan of the entry at `root` under `policy` (the non-pruned
/// traversal).  `found` is exactly whether a qualifying file stands within
/// `policy.max_depth` levels of `root`; on a negative scan the warnings are
/// exactly those of the completed traversal.
pub fn scan(root: &FsNode, policy: &ScanPolicy) -> (r: ScanOutcome)
    ensures
        r.found == scan_spec(*root, *policy),
        !r.found ==> r.warnings@ == scan_warns(*root, *policy),
{
    let mut warnings: Vec<ScanWarning> = Vec::new();
    let found = match &root.kind {
        FsKind::File => {
            match timestamp_of(&root.meta, policy.timestamp_kind) {
                Some(t) => t > policy.threshold_time,
                None => {
                    warnings.push(ScanWarning::TimestampUnavailable);
                    false
                },
            }
        },
        FsKind::Dir { via_symlink: _, accessible, children } => {
            let child_budget: Option<usize> = match policy.max_depth {
                None => None,
                Some(b) => {
                    if b >= 1 {
                        Some(b - 1)
                    } else {
                        return ScanOutcome { found: false, warnings };
                    }
                },
            };
            if !*accessible {
                warnings.push(ScanWarning::DirUnreadable);
                return ScanOutcome { found: false, warnings };
            }
            visit_children(root, children, policy, child_budget, &mut warnings)
        },
    };
    proof {
        if !found {
            assert(warnings@ =~= scan_warns(*root, *policy));
        }
    }
    ScanOutcome { found, warnings }
}

} // verus!
