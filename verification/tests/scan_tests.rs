use file_monitor::fs_model::{FileMeta, FsKind, FsNode, ScanWarning};
use file_monitor::latest::scan_latest_only;
use file_monitor::batch::scan_batched;
use file_monitor::policy::{ScanPolicy, TimestampKind};
use file_monitor::scanner::scan;

fn meta(modified: Option<i64>, created: Option<i64>) -> FileMeta {
    FileMeta { modified, created }
}

fn file(name: &str, modified: i64) -> FsNode {
    FsNode {
        name: Some(name.to_string()),
        meta: meta(Some(modified), Some(modified)),
        kind: FsKind::File,
    }
}

fn dir(name: &str, stamp: i64, children: Vec<FsNode>) -> FsNode {
    FsNode {
        name: Some(name.to_string()),
        meta: meta(Some(stamp), Some(stamp)),
        kind: FsKind::Dir { via_symlink: false, accessible: true, children },
    }
}

fn policy(threshold: i64) -> ScanPolicy {
    ScanPolicy {
        threshold_time: threshold,
        max_depth: None,
        follow_symlinks: false,
        timestamp_kind: TimestampKind::Modified,
        latest_subdir_only: false,
        batch_mode: false,
    }
}

#[test]
fn threshold_is_strictly_greater_than() {
    let threshold: i64 = 1000;
    let p = policy(threshold);

    let at = dir("d", 0, vec![file("f", threshold)]);
    assert!(!scan(&at, &p).found);

    let before = dir("d", 0, vec![file("f", threshold - 1)]);
    assert!(!scan(&before, &p).found);

    let after = dir("d", 0, vec![file("f", threshold + 1)]);
    assert!(scan(&after, &p).found);
}

#[test]
fn depth_limit_hides_deep_files() {
    // A ten-level chain of directories below the scan root, with the only
    // qualifying file at the bottom: ten levels down.
    let mut node = file("deep", 2000);
    for level in (2..=10).rev() {
        node = dir(&format!("level_{}", level), 0, vec![node]);
    }
    let root = dir("level_1", 0, vec![node]);

    let mut p = policy(1000);
    p.max_depth = Some(5);
    assert!(!scan(&root, &p).found);

    p.max_depth = Some(10);
    assert!(scan(&root, &p).found);

    p.max_depth = None;
    assert!(scan(&root, &p).found);
}

#[test]
fn depth_zero_sees_nothing() {
    let root = dir("d", 0, vec![file("f", 2000)]);
    let mut p = policy(1000);
    p.max_depth = Some(0);
    assert!(!scan(&root, &p).found);
}

#[test]
fn latest_subdir_heuristic_misses_older_sibling() {
    // A is older but holds the qualifying file; B is newer and empty.
    let a = dir("a", 100, vec![file("hit", 2000)]);
    let b = dir("b", 900, vec![]);
    let root = dir("root", 50, vec![a, b]);
    let p = policy(1000);

    assert!(scan(&root, &p).found);
    assert!(!scan_latest_only(&root, &p).found);
}

#[test]
fn latest_fast_path_answers_from_root_stamp() {
    let root = dir("root", 5000, vec![]);
    let p = policy(1000);
    assert!(scan_latest_only(&root, &p).found);
    assert!(!scan(&root, &p).found);
}

#[test]
fn latest_tie_keeps_earliest_candidate() {
    let a = dir("a", 500, vec![file("hit", 2000)]);
    let b = dir("b", 500, vec![]);
    let root = dir("root", 50, vec![a, b]);
    let p = policy(1000);
    assert!(scan_latest_only(&root, &p).found);

    let a2 = dir("a", 500, vec![]);
    let b2 = dir("b", 500, vec![file("hit", 2000)]);
    let root2 = dir("root", 50, vec![a2, b2]);
    assert!(!scan_latest_only(&root2, &p).found);
}

#[test]
fn latest_depth_floor_keeps_selected_child_reachable() {
    let chosen = dir("chosen", 900, vec![file("hit", 2000)]);
    let root = dir("root", 50, vec![chosen]);
    let mut p = policy(1000);
    p.max_depth = Some(1);

    // The full-tree scan stops at the selected child itself.
    assert!(!scan(&root, &p).found);
    // The pruned variant floors the inner bound at one, so the child's own
    // files stay visible.
    assert!(scan_latest_only(&root, &p).found);
}

#[test]
fn created_kind_unavailable_warns_and_skips() {
    let broken = FsNode {
        name: Some("f".to_string()),
        meta: meta(Some(5000), None),
        kind: FsKind::File,
    };
    let root = dir("d", 0, vec![broken]);
    let mut p = policy(1000);
    p.timestamp_kind = TimestampKind::Created;

    let outcome = scan(&root, &p);
    assert!(!outcome.found);
    assert_eq!(outcome.warnings, vec![ScanWarning::TimestampUnavailable]);

    // The same file under the modified kind qualifies.
    p.timestamp_kind = TimestampKind::Modified;
    assert!(scan(&root, &p).found);
}

#[test]
fn batched_agrees_with_full_scan() {
    let trees = vec![
        dir("d", 0, vec![file("old", 10), file("new", 2000)]),
        dir("d", 0, vec![dir("sub", 0, vec![file("old", 10)])]),
        dir("d", 0, vec![]),
        dir(
            "d",
            0,
            vec![dir("sub", 0, vec![file("hit", 1500)]), file("top", 20)],
        ),
    ];
    let p = policy(1000);
    for tree in &trees {
        assert_eq!(scan(tree, &p).found, scan_batched(tree, &p).found);
    }
}

#[test]
fn batched_warns_on_unavailable_timestamp() {
    let broken = FsNode {
        name: Some("f".to_string()),
        meta: meta(None, None),
        kind: FsKind::File,
    };
    let root = dir("d", 0, vec![broken]);
    let p = policy(1000);
    let outcome = scan_batched(&root, &p);
    assert!(!outcome.found);
    assert_eq!(outcome.warnings, vec![ScanWarning::TimestampUnavailable]);
}

#[test]
fn batched_warns_the_same_set_as_full_scan() {
    // A locked directory and a file without the requested timestamp: the
    // full scan warns in traversal order, the batched scan groups the
    // directory warning before the timestamp warning — same warnings, same
    // counts.
    let locked = FsNode {
        name: Some("locked".to_string()),
        meta: meta(Some(0), Some(0)),
        kind: FsKind::Dir {
            via_symlink: false,
            accessible: false,
            children: vec![],
        },
    };
    let broken = FsNode {
        name: Some("broken".to_string()),
        meta: meta(None, None),
        kind: FsKind::File,
    };
    let root = dir("root", 0, vec![broken, locked]);
    let p = policy(1000);

    let full = scan(&root, &p);
    let batched = scan_batched(&root, &p);
    assert!(!full.found);
    assert!(!batched.found);
    assert_eq!(
        full.warnings,
        vec![ScanWarning::TimestampUnavailable, ScanWarning::DirUnreadable]
    );
    assert_eq!(
        batched.warnings,
        vec![ScanWarning::DirUnreadable, ScanWarning::TimestampUnavailable]
    );
    let count = |ws: &Vec<ScanWarning>, w: ScanWarning| ws.iter().filter(|&&x| x == w).count();
    for w in [
        ScanWarning::TimestampUnavailable,
        ScanWarning::DirUnreadable,
        ScanWarning::NameUndecodable,
    ] {
        assert_eq!(count(&full.warnings, w), count(&batched.warnings, w));
    }
}

#[test]
fn symlinked_directory_needs_follow_flag() {
    let linked = FsNode {
        name: Some("link".to_string()),
        meta: meta(Some(0), Some(0)),
        kind: FsKind::Dir {
            via_symlink: true,
            accessible: true,
            children: vec![file("hit", 2000)],
        },
    };
    let root = dir("root", 0, vec![linked]);
    let mut p = policy(1000);

    assert!(!scan(&root, &p).found);
    p.follow_symlinks = true;
    assert!(scan(&root, &p).found);
}

#[test]
fn unreadable_directory_warns_and_scan_goes_on() {
    let locked = FsNode {
        name: Some("locked".to_string()),
        meta: meta(Some(0), Some(0)),
        kind: FsKind::Dir {
            via_symlink: false,
            accessible: false,
            children: vec![file("hidden", 2000)],
        },
    };
    let root = dir("root", 0, vec![locked, file("hit", 3000)]);
    let p = policy(1000);

    let outcome = scan(&root, &p);
    assert!(outcome.found);

    let root_without_hit = dir(
        "root",
        0,
        vec![FsNode {
            name: Some("locked".to_string()),
            meta: meta(Some(0), Some(0)),
            kind: FsKind::Dir {
                via_symlink: false,
                accessible: false,
                children: vec![file("hidden", 2000)],
            },
        }],
    );
    let negative = scan(&root_without_hit, &p);
    assert!(!negative.found);
    assert_eq!(negative.warnings, vec![ScanWarning::DirUnreadable]);
}
