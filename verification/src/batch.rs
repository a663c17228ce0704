//! The batched scan variant: one pass enumerates every visible file's
//! metadata, a second pass checks the batch against the threshold.
//!
//! The variant answers exactly like the full-tree scan ([`scan_spec`]); only
//! the access pattern differs, so its warnings come grouped — enumeration
//! warnings first, then the timestamp warnings of the batch.

use vstd::prelude::*;
use crate::fs_model::{
    budget_dec, children_warns, descend_ok, enter_ok, meta_qualifies, subtree_has_recent,
    subtree_warns, timestamp_of, ts_for, FileMeta, FsKind, FsNode, ScanWarning,
};
use crate::policy::{ScanPolicy, TimestampKind};
use crate::scanner::{scan_spec, scan_warns, ScanOutcome};

verus! {

/// The metadata of every file the traversal of the subtree at `node` visits
/// (with `budget` levels allowed below `node`), in traversal order.
pub open spec fn subtree_file_metas(node: FsNode, policy: ScanPolicy, budget: Option<usize>) -> Seq<
    FileMeta,
>
    decreases node, 0int,
{
    match node.kind {
        FsKind::File => seq![node.meta],
        FsKind::Dir { via_symlink, accessible, children } => {
            if enter_ok(via_symlink, policy) && descend_ok(budget) && accessible {
                children_file_metas(children@, policy, budget_dec(budget), 0)
            } else {
                Seq::empty()
            }
        },
    }
}

/// The concatenated file metadata of the subtrees at `children[from..]`.
pub open spec fn children_file_metas(
    children: Seq<FsNode>,
    policy: ScanPolicy,
    budget: Option<usize>,
    from: int,
) -> Seq<FileMeta>
    decreases children, children.len() - from,
{
    if from < 0 || from >= children.len() {
        Seq::empty()
    } else {
        subtree_file_metas(children[from], policy, budget) + children_file_metas(
            children,
            policy,
            budget,
            from + 1,
        )
    }
}

/// The warnings the enumeration pass alone collects below `node`: one per
/// directory that should have been read but could not be opened.
pub open spec fn subtree_dir_warns(node: FsNode, policy: ScanPolicy, budget: Option<usize>) -> Seq<
    ScanWarning,
>
    decreases node, 0int,
{
    match node.kind {
        FsKind::File => Seq::empty(),
        FsKind::Dir { via_symlink, accessible, children } => {
            if !enter_ok(via_symlink, policy) || !descend_ok(budget) {
                Seq::empty()
            } else if !accessible {
                seq![ScanWarning::DirUnreadable]
            } else {
                children_dir_warns(children@, policy, budget_dec(budget), 0)
            }
        },
    }
}

/// The concatenated enumeration warnings of the subtrees at
/// `children[from..]`.
pub open spec fn children_dir_warns(
    children: Seq<FsNode>,
    policy: ScanPolicy,
    budget: Option<usize>,
    from: int,
) -> Seq<ScanWarning>
    decreases children, children.len() - from,
{
    if from < 0 || from >= children.len() {
        Seq::empty()
    } else {
        subtree_dir_warns(children[from], policy, budget) + children_dir_warns(
            children,
            policy,
            budget,
            from + 1,
        )
    }
}

/// The file metadata a batched scan of `root` gathers: the root entry plus,
/// below a directory root, everything within the depth bound; the symlink
/// gate does not apply to the root itself.
pub open spec fn scan_metas(root: FsNode, policy: ScanPolicy) -> Seq<FileMeta> {
    match root.kind {
        FsKind::File => seq![root.meta],
        FsKind::Dir { via_symlink, accessible, children } => {
            if descend_ok(policy.max_depth) && accessible {
                children_file_metas(children@, policy, budget_dec(policy.max_depth), 0)
            } else {
                Seq::empty()
            }
        },
    }
}

/// The enumeration-pass warnings of a batched scan of `root`.
pub open spec fn scan_dir_warns(root: FsNode, policy: ScanPolicy) -> Seq<ScanWarning> {
    match root.kind {
        FsKind::File => Seq::empty(),
        FsKind::Dir { via_symlink, accessible, children } => {
            if !descend_ok(policy.max_depth) {
                Seq::empty()
            } else if !accessible {
                seq![ScanWarning::DirUnreadable]
            } else {
                children_dir_warns(children@, policy, budget_dec(policy.max_depth), 0)
            }
        },
    }
}

/// The timestamp warnings of the checking pass over the first `n` gathered
/// metadata records.
pub open spec fn file_warns(metas: Seq<FileMeta>, kind: TimestampKind, n: int) -> Seq<ScanWarning>
    decreases n,
{
    if n <= 0 {
        Seq::empty()
    } else {
        file_warns(metas, kind, n - 1) + (if ts_for(metas[n - 1], kind) is None {
            seq![ScanWarning::TimestampUnavailable]
        } else {
            Seq::empty()
        })
    }
}

/// The timestamp warnings of the checking pass over a whole batch.
pub open spec fn meta_warns(metas: Seq<FileMeta>, kind: TimestampKind) -> Seq<ScanWarning> {
    file_warns(metas, kind, metas.len() as int)
}

/// The warnings a completed (negative) batched scan collects: enumeration
/// warnings first, then the batch's timestamp warnings.
pub open spec fn batched_warns(root: FsNode, policy: ScanPolicy) -> Seq<ScanWarning> {
    scan_dir_warns(root, policy) + meta_warns(scan_metas(root, policy), policy.timestamp_kind)
}

/// Whether some record of `s` qualifies as recent under `policy`.
pub open spec fn any_recent(s: Seq<FileMeta>, policy: ScanPolicy) -> bool {
    exists|k: int| 0 <= k < s.len() && meta_qualifies(s[k], policy)
}

/// A concatenated batch holds a qualifying record exactly when one of its
/// parts does.
proof fn lemma_any_recent_concat(a: Seq<FileMeta>, b: Seq<FileMeta>, policy: ScanPolicy)
    ensures
        any_recent(a + b, policy) == (any_recent(a, policy) || any_recent(b, policy)),
{
    if any_recent(a, policy) {
        let k = choose|k: int| 0 <= k < a.len() && meta_qualifies(a[k], policy);
        assert((a + b)[k] == a[k]);
        assert(0 <= k < (a + b).len() && meta_qualifies((a + b)[k], policy));
    }
    if any_recent(b, policy) {
        let k = choose|k: int| 0 <= k < b.len() && meta_qualifies(b[k], policy);
        assert((a + b)[a.len() + k] == b[k]);
        assert(0 <= a.len() + k < (a + b).len() && meta_qualifies((a + b)[a.len() + k], policy));
    }
    if any_recent(a + b, policy) {
        let k = choose|k: int| 0 <= k < (a + b).len() && meta_qualifies((a + b)[k], policy);
        if k < a.len() {
            assert((a + b)[k] == a[k]);
            assert(0 <= k < a.len() && meta_qualifies(a[k], policy));
        } else {
            assert((a + b)[k] == b[k - a.len()]);
            assert(0 <= k - a.len() < b.len() && meta_qualifies(b[k - a.len()], policy));
        }
    }
}

/// A subtree holds a qualifying file exactly when its gathered metadata
/// holds a qualifying record.
proof fn lemma_subtree_metas_recent(node: FsNode, policy: ScanPolicy, budget: Option<usize>)
    ensures
        subtree_has_recent(node, policy, budget) == any_recent(
            subtree_file_metas(node, policy, budget),
            policy,
        ),
    decreases node, 0int,
{
    match node.kind {
        FsKind::File => {
            assert(subtree_file_metas(node, policy, budget)[0] == node.meta);
            if meta_qualifies(node.meta, policy) {
                assert(0 <= 0 < subtree_file_metas(node, policy, budget).len() && meta_qualifies(
                    subtree_file_metas(node, policy, budget)[0],
                    policy,
                ));
            }
        },
        FsKind::Dir { via_symlink, accessible, children } => {
            if enter_ok(via_symlink, policy) && descend_ok(budget) && accessible {
                lemma_children_metas_recent(children@, policy, budget_dec(budget), 0);
            }
        },
    }
}

/// The children's tail from `from` holds a qualifying subtree exactly when
/// their concatenated metadata holds a qualifying record.
proof fn lemma_children_metas_recent(
    children: Seq<FsNode>,
    policy: ScanPolicy,
    budget: Option<usize>,
    from: int,
)
    requires
        0 <= from,
    ensures
        (exists|i: int|
            from <= i < children.len() && subtree_has_recent(children[i], policy, budget))
            == any_recent(children_file_metas(children, policy, budget, from), policy),
    decreases children, children.len() - from,
{
    if from < 0 || from >= children.len() {
    } else {
        lemma_subtree_metas_recent(children[from], policy, budget);
        lemma_children_metas_recent(children, policy, budget, from + 1);
        lemma_any_recent_concat(
            subtree_file_metas(children[from], policy, budget),
            children_file_metas(children, policy, budget, from + 1),
            policy,
        );
        assert(children_file_metas(children, policy, budget, from) == subtree_file_metas(
            children[from],
            policy,
            budget,
        ) + children_file_metas(children, policy, budget, from + 1));
        if subtree_has_recent(children[from], policy, budget) {
            assert(from <= from < children.len() && subtree_has_recent(
                children[from],
                policy,
                budget,
            ));
        }
        if exists|i: int|
            from + 1 <= i < children.len() && subtree_has_recent(children[i], policy, budget) {
            let i = choose|i: int|
                from + 1 <= i < children.len() && subtree_has_recent(children[i], policy, budget);
            assert(from <= i < children.len() && subtree_has_recent(children[i], policy, budget));
        }
        if exists|i: int|
            from <= i < children.len() && subtree_has_recent(children[i], policy, budget) {
            let i = choose|i: int|
                from <= i < children.len() && subtree_has_recent(children[i], policy, budget);
            if i != from {
                assert(from + 1 <= i < children.len() && subtree_has_recent(
                    children[i],
                    policy,
                    budget,
                ));
            }
        }
    }
}

/// A batched scan finds a file exactly when a full-tree scan would.
pub proof fn lemma_scan_metas_recent(root: FsNode, policy: ScanPolicy)
    ensures
        scan_spec(root, policy) == any_recent(scan_metas(root, policy), policy),
{
    match root.kind {
        FsKind::File => {
            assert(scan_metas(root, policy)[0] == root.meta);
            if meta_qualifies(root.meta, policy) {
                assert(0 <= 0 < scan_metas(root, policy).len() && meta_qualifies(
                    scan_metas(root, policy)[0],
                    policy,
                ));
            }
        },
        FsKind::Dir { via_symlink, accessible, children } => {
            if descend_ok(policy.max_depth) && accessible {
                lemma_children_metas_recent(children@, policy, budget_dec(policy.max_depth), 0);
            }
        },
    }
}

/// A prefix of the checking pass's warnings depends only on the records it
/// covers.
proof fn lemma_file_warns_congruent(a: Seq<FileMeta>, b: Seq<FileMeta>, kind: TimestampKind, n: int)
    requires
        forall|j: int| 0 <= j < n ==> a[j] == b[j],
    ensures
        file_warns(a, kind, n) == file_warns(b, kind, n),
    decreases n,
{
    if n > 0 {
        lemma_file_warns_congruent(a, b, kind, n - 1);
    }
}

/// The checking pass over a concatenated batch warns as it would over the
/// two parts one after the other.
proof fn lemma_file_warns_split(a: Seq<FileMeta>, b: Seq<FileMeta>, kind: TimestampKind, n: int)
    requires
        0 <= n <= b.len(),
    ensures
        file_warns(a + b, kind, a.len() + n) == file_warns(a, kind, a.len() as int) + file_warns(
            b,
            kind,
            n,
        ),
    decreases n,
{
    if n == 0 {
        lemma_file_warns_congruent(a + b, a, kind, a.len() as int);
        assert(file_warns(a, kind, a.len() as int) + file_warns(b, kind, 0) =~= file_warns(
            a,
            kind,
            a.len() as int,
        ));
    } else {
        lemma_file_warns_split(a, b, kind, n - 1);
        assert((a + b)[a.len() + n - 1] == b[n - 1]);
        let head = file_warns(a, kind, a.len() as int);
        let prev = file_warns(b, kind, n - 1);
        let step = if ts_for(b[n - 1], kind) is None {
            seq![ScanWarning::TimestampUnavailable]
        } else {
            Seq::<ScanWarning>::empty()
        };
        assert(file_warns(a + b, kind, a.len() + n) == (head + prev) + step);
        assert((head + prev) + step =~= head + (prev + step));
    }
}

/// A full traversal of a subtree warns, as a set with multiplicity, exactly
/// what the batched passes warn: the unreadable directories plus the
/// visible files with an unavailable timestamp.
proof fn lemma_subtree_warns_split(node: FsNode, policy: ScanPolicy, budget: Option<usize>)
    ensures
        subtree_warns(node, policy, budget).to_multiset() == subtree_dir_warns(
            node,
            policy,
            budget,
        ).to_multiset().add(
            meta_warns(
                subtree_file_metas(node, policy, budget),
                policy.timestamp_kind,
            ).to_multiset(),
        ),
    decreases node, 0int,
{
    broadcast use vstd::seq_lib::lemma_multiset_commutative;

    let kind = policy.timestamp_kind;
    let sw = subtree_warns(node, policy, budget);
    let sdw = subtree_dir_warns(node, policy, budget);
    let sfm = subtree_file_metas(node, policy, budget);
    match node.kind {
        FsKind::File => {
            assert(seq![node.meta].len() == 1);
            assert(seq![node.meta][0] == node.meta);
            assert(sfm == seq![node.meta]);
            assert(sfm.len() == 1);
            assert(file_warns(sfm, kind, 0) == Seq::<ScanWarning>::empty());
            if ts_for(node.meta, kind) is None {
                assert(meta_warns(sfm, kind) == file_warns(sfm, kind, 0) + seq![
                    ScanWarning::TimestampUnavailable,
                ]);
                assert(sdw + meta_warns(sfm, kind) =~= sw);
            } else {
                assert(meta_warns(sfm, kind) == file_warns(sfm, kind, 0) + Seq::<
                    ScanWarning,
                >::empty());
                assert(sdw + meta_warns(sfm, kind) =~= sw);
            }
            assert((sdw + meta_warns(sfm, kind)).to_multiset() == sdw.to_multiset().add(
                meta_warns(sfm, kind).to_multiset(),
            ));
        },
        FsKind::Dir { via_symlink, accessible, children } => {
            if !enter_ok(via_symlink, policy) || !descend_ok(budget) || !accessible {
                assert(meta_warns(sfm, kind) == Seq::<ScanWarning>::empty());
                assert(sdw + meta_warns(sfm, kind) =~= sw);
                assert((sdw + meta_warns(sfm, kind)).to_multiset() == sdw.to_multiset().add(
                    meta_warns(sfm, kind).to_multiset(),
                ));
            } else {
                lemma_children_warns_split(children@, policy, budget_dec(budget), 0);
            }
        },
    }
}

/// The children's tails satisfy the same split as a whole subtree.
proof fn lemma_children_warns_split(
    children: Seq<FsNode>,
    policy: ScanPolicy,
    budget: Option<usize>,
    from: int,
)
    ensures
        children_warns(children, policy, budget, from).to_multiset() == children_dir_warns(
            children,
            policy,
            budget,
            from,
        ).to_multiset().add(
            meta_warns(
                children_file_metas(children, policy, budget, from),
                policy.timestamp_kind,
            ).to_multiset(),
        ),
    decreases children, children.len() - from,
{
    broadcast use vstd::seq_lib::lemma_multiset_commutative;

    let kind = policy.timestamp_kind;
    if from < 0 || from >= children.len() {
        let empty_w = Seq::<ScanWarning>::empty();
        assert(children_warns(children, policy, budget, from) == empty_w);
        assert(children_dir_warns(children, policy, budget, from) == empty_w);
        assert(meta_warns(children_file_metas(children, policy, budget, from), kind) == empty_w);
        assert((empty_w + empty_w).to_multiset() == empty_w.to_multiset().add(
            empty_w.to_multiset(),
        ));
        assert(empty_w + empty_w =~= empty_w);
    } else {
        lemma_subtree_warns_split(children[from], policy, budget);
        lemma_children_warns_split(children, policy, budget, from + 1);
        let sw_h = subtree_warns(children[from], policy, budget);
        let cw_t = children_warns(children, policy, budget, from + 1);
        let sdw_h = subtree_dir_warns(children[from], policy, budget);
        let cdw_t = children_dir_warns(children, policy, budget, from + 1);
        let sfm_h = subtree_file_metas(children[from], policy, budget);
        let cfm_t = children_file_metas(children, policy, budget, from + 1);
        lemma_file_warns_split(sfm_h, cfm_t, kind, cfm_t.len() as int);
        assert(meta_warns(sfm_h + cfm_t, kind) == meta_warns(sfm_h, kind) + meta_warns(
            cfm_t,
            kind,
        ));
        assert((sw_h + cw_t).to_multiset() == sw_h.to_multiset().add(cw_t.to_multiset()));
        assert((sdw_h + cdw_t).to_multiset() == sdw_h.to_multiset().add(cdw_t.to_multiset()));
        assert((meta_warns(sfm_h, kind) + meta_warns(cfm_t, kind)).to_multiset() == meta_warns(
            sfm_h,
            kind,
        ).to_multiset().add(meta_warns(cfm_t, kind).to_multiset()));
        assert(children_warns(children, policy, budget, from) == sw_h + cw_t);
        assert(children_dir_warns(children, policy, budget, from) == sdw_h + cdw_t);
        assert(children_file_metas(children, policy, budget, from) == sfm_h + cfm_t);
        assert(sw_h.to_multiset().add(cw_t.to_multiset()) =~= (sdw_h.to_multiset().add(
            cdw_t.to_multiset(),
        )).add(
            meta_warns(sfm_h, kind).to_multiset().add(meta_warns(cfm_t, kind).to_multiset()),
        ));
    }
}

/// The batched variant warns exactly what the full-tree scan warns — the
/// same warnings with the same multiplicities, grouped differently: a
/// completed batched scan and a completed full scan of the same root under
/// the same policy differ in access pattern only, never in what they
/// report.
pub proof fn lemma_batched_warns_match_scan(root: FsNode, policy: ScanPolicy)
    ensures
        batched_warns(root, policy).to_multiset() == scan_warns(root, policy).to_multiset(),
{
    broadcast use vstd::seq_lib::lemma_multiset_commutative;

    let kind = policy.timestamp_kind;
    let sdw = scan_dir_warns(root, policy);
    let metas = scan_metas(root, policy);
    match root.kind {
        FsKind::File => {
            assert(seq![root.meta].len() == 1);
            assert(seq![root.meta][0] == root.meta);
            assert(metas == seq![root.meta]);
            assert(metas.len() == 1);
            assert(file_warns(metas, kind, 0) == Seq::<ScanWarning>::empty());
            if ts_for(root.meta, kind) is None {
                assert(meta_warns(metas, kind) == file_warns(metas, kind, 0) + seq![
                    ScanWarning::TimestampUnavailable,
                ]);
            } else {
                assert(meta_warns(metas, kind) == file_warns(metas, kind, 0) + Seq::<
                    ScanWarning,
                >::empty());
            }
            assert(batched_warns(root, policy) =~= scan_warns(root, policy));
        },
        FsKind::Dir { via_symlink, accessible, children } => {
            if descend_ok(policy.max_depth) && accessible {
                lemma_children_warns_split(children@, policy, budget_dec(policy.max_depth), 0);
                assert((sdw + meta_warns(metas, kind)).to_multiset() == sdw.to_multiset().add(
                    meta_warns(metas, kind).to_multiset(),
                ));
            } else {
                assert(meta_warns(metas, kind) == Seq::<ScanWarning>::empty());
                assert(batched_warns(root, policy) =~= scan_warns(root, policy));
            }
        },
    }
}

/// Enumerates the metadata of every visible file below `node` and the
/// directories that could not be opened along the way.
fn collect(
    node: &FsNode,
    policy: &ScanPolicy,
    budget: Option<usize>,
    metas: &mut Vec<FileMeta>,
    warnings: &mut Vec<ScanWarning>,
)
    ensures
        final(metas)@ == old(metas)@ + subtree_file_metas(*node, *policy, budget),
        final(warnings)@ == old(warnings)@ + subtree_dir_warns(*node, *policy, budget),
    decreases *node, 1int,
{
    match &node.kind {
        FsKind::File => {
            metas.push(node.meta);
            assert(metas@ =~= old(metas)@ + subtree_file_metas(*node, *policy, budget));
            assert(warnings@ =~= old(warnings)@ + subtree_dir_warns(*node, *policy, budget));
        },
        FsKind::Dir { via_symlink, accessible, children } => {
            if *via_symlink && !policy.follow_symlinks {
                assert(metas@ =~= old(metas)@ + subtree_file_metas(*node, *policy, budget));
                assert(warnings@ =~= old(warnings)@ + subtree_dir_warns(*node, *policy, budget));
                return ;
            }
            let child_budget: Option<usize> = match budget {
                None => None,
                Some(b) => {
                    if b >= 1 {
                        Some(b - 1)
                    } else {
                        assert(metas@ =~= old(metas)@ + subtree_file_metas(
                            *node,
                            *policy,
                            budget,
                        ));
                        assert(warnings@ =~= old(warnings)@ + subtree_dir_warns(
                            *node,
                            *policy,
                            budget,
                        ));
                        return ;
                    }
                },
            };
            if !*accessible {
                warnings.push(ScanWarning::DirUnreadable);
                assert(metas@ =~= old(metas)@ + subtree_file_metas(*node, *policy, budget));
                assert(warnings@ =~= old(warnings)@ + subtree_dir_warns(*node, *policy, budget));
                return ;
            }
            collect_children(node, children, policy, child_budget, metas, warnings);
        },
    }
}

/// The child loop of [`collect`]; `parent` only carries the termination
/// measure.
fn collect_children(
    parent: &FsNode,
    children: &Vec<FsNode>,
    policy: &ScanPolicy,
    budget: Option<usize>,
    metas: &mut Vec<FileMeta>,
    warnings: &mut Vec<ScanWarning>,
)
    requires
        decreases_to!(*parent => children@),
    ensures
        final(metas)@ == old(metas)@ + children_file_metas(children@, *policy, budget, 0),
        final(warnings)@ == old(warnings)@ + children_dir_warns(children@, *policy, budget, 0),
    decreases *parent, 0int,
{
    let mut i: usize = 0;
    while i < children.len()
        invariant
            0 <= i <= children.len(),
            decreases_to!(*parent => children@),
            old(metas)@ + children_file_metas(children@, *policy, budget, 0) == metas@
                + children_file_metas(children@, *policy, budget, i as int),
            old(warnings)@ + children_dir_warns(children@, *policy, budget, 0) == warnings@
                + children_dir_warns(children@, *policy, budget, i as int),
        decreases children.len() - i,
    {
        proof {
            assert(decreases_to!(children@ => children@[i as int]));
        }
        let ghost pre_metas = metas@;
        let ghost pre_warns = warnings@;
        collect(&children[i], policy, budget, metas, warnings);
        proof {
            assert(pre_metas + (subtree_file_metas(children@[i as int], *policy, budget)
                + children_file_metas(children@, *policy, budget, i as int + 1)) =~= (pre_metas
                + subtree_file_metas(children@[i as int], *policy, budget)) + children_file_metas(
                children@,
                *policy,
                budget,
                i as int + 1,
            ));
            assert(pre_warns + (subtree_dir_warns(children@[i as int], *policy, budget)
                + children_dir_warns(children@, *policy, budget, i as int + 1)) =~= (pre_warns
                + subtree_dir_warns(children@[i as int], *policy, budget)) + children_dir_warns(
                children@,
                *policy,
                budget,
                i as int + 1,
            ));
        }
        i = i + 1;
    }
    proof {
        assert(children_file_metas(children@, *policy, budget, children@.len() as int) =~= Seq::<
            FileMeta,
        >::empty());
        assert(children_dir_warns(children@, *policy, budget, children@.len() as int) =~= Seq::<
            ScanWarning,
        >::empty());
        assert(metas@ + Seq::<FileMeta>::empty() =~= metas@);
        assert(warnings@ + Seq::<ScanWarning>::empty() =~= warnings@);
    }
}

/// Checks a gathered batch against the policy's threshold, short-circuiting
/// on the first qualifying record and warning for each record whose
/// requested timestamp is unavailable.
pub fn check_files_batch(
    files: &Vec<FileMeta>,
    policy: &ScanPolicy,
    warnings: &mut Vec<ScanWarning>,
) -> (found: bool)
    ensures
        found == any_recent(files@, *policy),
        !found ==> final(warnings)@ == old(warnings)@ + file_warns(
            files@,
            policy.timestamp_kind,
            files@.len() as int,
        ),
{
    let mut i: usize = 0;
    while i < files.len()
        invariant
            0 <= i <= files.len(),
            forall|k: int| 0 <= k < i ==> !meta_qualifies(files@[k], *policy),
            warnings@ == old(warnings)@ + file_warns(files@, policy.timestamp_kind, i as int),
        decreases files.len() - i,
    {
        match timestamp_of(&files[i], policy.timestamp_kind) {
            Some(t) => {
                if t > policy.threshold_time {
                    return true;
                }
            },
            None => {
                warnings.push(ScanWarning::TimestampUnavailable);
            },
        }
        proof {
            assert(file_warns(files@, policy.timestamp_kind, i as int + 1) == file_warns(
                files@,
                policy.timestamp_kind,
                i as int,
            ) + (if ts_for(files@[i as int], policy.timestamp_kind) is None {
                seq![ScanWarning::TimestampUnavailable]
            } else {
                Seq::<ScanWarning>::empty()
            }));
            assert(warnings@ =~= old(warnings)@ + file_warns(
                files@,
                policy.timestamp_kind,
                i as int + 1,
            ));
        }
        i = i + 1;
    }
    false
}

/// Batched scan of the entry at `root`: gathers all visible file metadata
/// first, then checks the batch.  `found` is exactly [`scan_spec`] — the
/// batched variant never disagrees with the full-tree scan; on a negative
/// scan the warnings are exactly [`batched_warns`].
pub fn scan_batched(root: &FsNode, policy: &ScanPolicy) -> (r: ScanOutcome)
    ensures
        r.found == scan_spec(*root, *policy),
        !r.found ==> r.warnings@ == batched_warns(*root, *policy),
{
    let mut warnings: Vec<ScanWarning> = Vec::new();
    let mut metas: Vec<FileMeta> = Vec::new();
    match &root.kind {
        FsKind::File => {
            metas.push(root.meta);
        },
        FsKind::Dir { via_symlink: _, accessible, children } => {
            let child_budget: Option<usize> = match policy.max_depth {
                None => None,
                Some(b) => {
                    if b >= 1 {
                        Some(b - 1)
                    } else {
                        proof {
                            lemma_scan_metas_recent(*root, *policy);
                            assert(warnings@ =~= batched_warns(*root, *policy));
                        }
                        return ScanOutcome { found: false, warnings };
                    }
                },
            };
            if !*accessible {
                warnings.push(ScanWarning::DirUnreadable);
                proof {
                    lemma_scan_metas_recent(*root, *policy);
                    assert(warnings@ =~= batched_warns(*root, *policy));
                }
                return ScanOutcome { found: false, warnings };
            }
            collect_children(root, children, policy, child_budget, &mut metas, &mut warnings);
        },
    }
    proof {
        lemma_scan_metas_recent(*root, *policy);
        assert(metas@ == scan_metas(*root, *policy)) by {
            assert(metas@ =~= scan_metas(*root, *policy));
        }
    }
    let found = check_files_batch(&metas, policy, &mut warnings);
    proof {
        if !found {
            assert(warnings@ =~= batched_warns(*root, *policy));
        }
    }
    ScanOutcome { found, warnings }
}

} // verus!
