use file_monitor::activity::SubdirStatus;
use file_monitor::fs_model::{FileMeta, FsKind, FsNode, ScanWarning};
use file_monitor::orchestrator::{aggregate, check_all, scan_entries, RootError};
use file_monitor::policy::{ConcurrencyMode, ScanPolicy, TimestampKind};

fn meta_both(stamp: i64) -> FileMeta {
    FileMeta {
        modified: Some(stamp),
        created: Some(stamp),
    }
}

fn plain_file(name: &str, stamp: i64) -> FsNode {
    FsNode {
        name: Some(name.to_string()),
        meta: meta_both(stamp),
        kind: FsKind::File,
    }
}

fn plain_dir(name: &str, stamp: i64, children: Vec<FsNode>) -> FsNode {
    FsNode {
        name: Some(name.to_string()),
        meta: meta_both(stamp),
        kind: FsKind::Dir {
            via_symlink: false,
            accessible: true,
            children,
        },
    }
}

fn base_policy(threshold: i64) -> ScanPolicy {
    ScanPolicy {
        threshold_time: threshold,
        max_depth: None,
        follow_symlinks: false,
        timestamp_kind: TimestampKind::Modified,
        latest_subdir_only: false,
        batch_mode: false,
    }
}

fn sample_root() -> FsNode {
    plain_dir(
        "root",
        0,
        vec![
            plain_dir("active", 10, vec![plain_file("clip", 2000)]),
            plain_dir("idle", 10, vec![plain_file("old", 10)]),
            plain_dir("nested", 10, vec![plain_dir("inner", 10, vec![plain_file("take", 1500)])]),
            plain_file("stray", 3000),
        ],
    )
}

#[test]
fn missing_root_yields_empty_result_and_error() {
    let p = base_policy(1000);
    let outcome = check_all(None, &p, ConcurrencyMode::Sequential);
    assert_eq!(outcome.error, Some(RootError::Missing));
    assert_eq!(outcome.result.entry_count(), 0);
    assert!(outcome.warnings.is_empty());
}

#[test]
fn unreadable_root_yields_empty_result_and_error() {
    let root = FsNode {
        name: Some("root".to_string()),
        meta: meta_both(0),
        kind: FsKind::Dir {
            via_symlink: false,
            accessible: false,
            children: vec![plain_dir("a", 0, vec![])],
        },
    };
    let p = base_policy(1000);
    let outcome = check_all(Some(&root), &p, ConcurrencyMode::Sequential);
    assert_eq!(outcome.error, Some(RootError::Unreadable));
    assert_eq!(outcome.result.entry_count(), 0);
}

#[test]
fn file_root_yields_empty_result_and_error() {
    let root = plain_file("not_a_dir", 2000);
    let p = base_policy(1000);
    let outcome = check_all(Some(&root), &p, ConcurrencyMode::Parallel);
    assert_eq!(outcome.error, Some(RootError::Unreadable));
    assert_eq!(outcome.result.entry_count(), 0);
}

#[test]
fn all_three_modes_report_the_same_mapping() {
    let root = sample_root();
    let p = base_policy(1000);
    let sequential = check_all(Some(&root), &p, ConcurrencyMode::Sequential);
    let concurrent = check_all(Some(&root), &p, ConcurrencyMode::Concurrent);
    let parallel = check_all(Some(&root), &p, ConcurrencyMode::Parallel);

    assert!(sequential.result.same_mapping(&concurrent.result));
    assert!(concurrent.result.same_mapping(&parallel.result));
    assert!(sequential.result.same_mapping(&parallel.result));

    assert_eq!(sequential.result.get(&"active".to_string()), Some(true));
    assert_eq!(sequential.result.get(&"idle".to_string()), Some(false));
    assert_eq!(sequential.result.get(&"nested".to_string()), Some(true));
    // The stray file at root level gets no entry.
    assert_eq!(sequential.result.get(&"stray".to_string()), None);
}

#[test]
fn two_cycles_over_an_unchanged_snapshot_agree() {
    let root = sample_root();
    let p = base_policy(1000);
    let first = check_all(Some(&root), &p, ConcurrencyMode::Sequential);
    let second = check_all(Some(&root), &p, ConcurrencyMode::Sequential);
    assert!(first.result.same_mapping(&second.result));
    assert_eq!(first.error, second.error);
    assert_eq!(first.warnings, second.warnings);
}

#[test]
fn undecodable_name_is_skipped_with_a_warning() {
    let nameless = FsNode {
        name: None,
        meta: meta_both(10),
        kind: FsKind::Dir {
            via_symlink: false,
            accessible: true,
            children: vec![plain_file("clip", 2000)],
        },
    };
    let root = plain_dir("root", 0, vec![nameless, plain_dir("ok", 10, vec![])]);
    let p = base_policy(1000);
    let outcome = check_all(Some(&root), &p, ConcurrencyMode::Sequential);
    assert_eq!(outcome.error, None);
    assert_eq!(outcome.warnings, vec![ScanWarning::NameUndecodable]);
    assert_eq!(outcome.result.entry_count(), 1);
    assert_eq!(outcome.result.get(&"ok".to_string()), Some(false));
}

#[test]
fn latest_only_cycle_misses_older_sibling_branch() {
    // Under the subdirectory "session" the older branch holds the file, the
    // newer one is empty: the pruned cycle reports it idle, the full cycle
    // reports it active.
    let session = plain_dir(
        "session",
        20,
        vec![
            plain_dir("older", 100, vec![plain_file("hit", 2000)]),
            plain_dir("newer", 900, vec![]),
        ],
    );
    let root = plain_dir("root", 0, vec![session]);

    let full = base_policy(1000);
    let full_cycle = check_all(Some(&root), &full, ConcurrencyMode::Sequential);
    assert_eq!(full_cycle.result.get(&"session".to_string()), Some(true));

    let mut pruned = base_policy(1000);
    pruned.latest_subdir_only = true;
    let pruned_cycle = check_all(Some(&root), &pruned, ConcurrencyMode::Sequential);
    assert_eq!(pruned_cycle.result.get(&"session".to_string()), Some(false));
}

#[test]
fn batch_mode_cycle_matches_plain_cycle() {
    let root = sample_root();
    let plain = base_policy(1000);
    let mut batched = base_policy(1000);
    batched.batch_mode = true;

    let a = check_all(Some(&root), &plain, ConcurrencyMode::Sequential);
    let b = check_all(Some(&root), &batched, ConcurrencyMode::Sequential);
    assert!(a.result.same_mapping(&b.result));
}

#[test]
fn aggregation_keeps_the_later_verdict_on_a_repeated_name() {
    let records = vec![
        SubdirStatus {
            name: "cam".to_string(),
            has_recent_activity: true,
        },
        SubdirStatus {
            name: "cam".to_string(),
            has_recent_activity: false,
        },
    ];
    let result = aggregate(&records);
    assert_eq!(result.get(&"cam".to_string()), Some(false));
}

#[test]
fn aggregation_order_does_not_matter_for_unique_names() {
    let root = sample_root();
    let p = base_policy(1000);
    let children = match &root.kind {
        FsKind::Dir { children, .. } => children,
        FsKind::File => unreachable!(),
    };
    let (records, _warnings) = scan_entries(children, &p);
    let forward = aggregate(&records);
    let mut reversed_records = scan_entries(children, &p).0;
    reversed_records.reverse();
    let reversed = aggregate(&reversed_records);
    assert!(forward.same_mapping(&reversed));
}

#[test]
fn lookup_of_an_absent_name_is_none() {
    let root = sample_root();
    let p = base_policy(1000);
    let outcome = check_all(Some(&root), &p, ConcurrencyMode::Sequential);
    assert_eq!(outcome.result.get(&"absent".to_string()), None);
}
