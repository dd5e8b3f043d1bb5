use syncu::models::{FileInfo, ModifiedTime, SyncAction, SyncData};
use syncu::paths::SyncPath;
use std::cell::Cell;
use syncu::planner::{classify_dir, classify_file, plan_sync, plan_sync_unless};
use syncu::models::ActionKind;

fn path(parts: &[&str]) -> SyncPath {
    SyncPath::new(parts.iter().map(|p| p.to_string()).collect())
}

fn file(parts: &[&str], hash: &str, size: u64) -> FileInfo {
    FileInfo {
        path: path(parts),
        hash: hash.to_string(),
        modified: ModifiedTime { secs: 1_700_000_000, nanos: 0 },
        size,
    }
}

fn tree(files: Vec<FileInfo>, dirs: Vec<SyncPath>) -> SyncData {
    let mut data = SyncData::new();
    for d in dirs {
        data.insert_directory(d);
    }
    for f in files {
        data.insert_file(f);
    }
    data
}

#[test]
fn fresh_local_file_is_copied_to_remote() {
    let local = tree(vec![file(&["a.txt"], "h1", 12)], vec![]);
    let remote = tree(vec![], vec![]);
    let last = tree(vec![], vec![]);
    let plan = plan_sync(&local, &remote, &last);
    assert_eq!(plan.actions, vec![SyncAction::LocalToRemote(path(&["a.txt"]))]);
    assert_eq!(plan.total_size, 12);
}

#[test]
fn equal_files_without_baseline_need_nothing() {
    let local = tree(vec![file(&["a.txt"], "h1", 12)], vec![]);
    let remote = tree(vec![file(&["a.txt"], "h1", 12)], vec![]);
    let last = tree(vec![], vec![]);
    let plan = plan_sync(&local, &remote, &last);
    assert_eq!(plan.actions, vec![]);
    assert_eq!(plan.total_size, 0);
}

#[test]
fn both_sides_changed_differently_is_a_conflict() {
    let local = tree(vec![file(&["a.txt"], "h1", 5)], vec![]);
    let remote = tree(vec![file(&["a.txt"], "h2", 7)], vec![]);
    let last = tree(vec![file(&["a.txt"], "h0", 3)], vec![]);
    let plan = plan_sync(&local, &remote, &last);
    assert_eq!(plan.actions, vec![SyncAction::Conflict { path: path(&["a.txt"]) }]);
    assert_eq!(plan.total_size, 5);
}

#[test]
fn file_gone_from_remote_is_deleted_locally() {
    let local = tree(vec![file(&["a.txt"], "h0", 5)], vec![]);
    let remote = tree(vec![], vec![]);
    let last = tree(vec![file(&["a.txt"], "h0", 5)], vec![]);
    let plan = plan_sync(&local, &remote, &last);
    assert_eq!(plan.actions, vec![SyncAction::DeleteLocal(path(&["a.txt"]))]);
    assert_eq!(plan.total_size, 0);
}

#[test]
fn settled_conflict_needs_nothing_at_the_next_run() {
    // After the local version was kept, both sides and the new baseline
    // hold the local content.
    let local = tree(vec![file(&["a.txt"], "h1", 5)], vec![]);
    let remote = tree(vec![file(&["a.txt"], "h1", 5)], vec![]);
    let last = tree(vec![file(&["a.txt"], "h1", 5)], vec![]);
    let plan = plan_sync(&local, &remote, &last);
    assert_eq!(plan.actions, vec![]);
}

#[test]
fn refused_deletion_comes_up_again() {
    // The local file was kept; the new baseline lists it, the mirror lacks it.
    let local = tree(vec![file(&["a.txt"], "h0", 5)], vec![]);
    let remote = tree(vec![], vec![]);
    let last = tree(vec![file(&["a.txt"], "h0", 5)], vec![]);
    let first = plan_sync(&local, &remote, &last);
    let second = plan_sync(&local, &remote, &local);
    assert_eq!(first.actions, second.actions);
    assert_eq!(second.actions, vec![SyncAction::DeleteLocal(path(&["a.txt"]))]);
}

#[test]
fn decision_table_with_all_three_present() {
    let h0 = file(&["f"], "h0", 1);
    let h1 = file(&["f"], "h1", 1);
    let h2 = file(&["f"], "h2", 1);
    assert_eq!(classify_file(Some(&h0), Some(&h0), Some(&h0)), None);
    assert_eq!(classify_file(Some(&h1), Some(&h0), Some(&h0)), Some(ActionKind::LocalToRemote));
    assert_eq!(classify_file(Some(&h0), Some(&h2), Some(&h0)), Some(ActionKind::RemoteToLocal));
    assert_eq!(classify_file(Some(&h1), Some(&h2), Some(&h0)), Some(ActionKind::Conflict));
    // Both changed, to the same content: converged.
    assert_eq!(classify_file(Some(&h1), Some(&h1), Some(&h0)), None);
}

#[test]
fn decision_table_with_absences() {
    let h1 = file(&["f"], "h1", 1);
    let h2 = file(&["f"], "h2", 1);
    assert_eq!(classify_file(Some(&h1), Some(&h1), None), None);
    assert_eq!(classify_file(Some(&h1), Some(&h2), None), Some(ActionKind::Conflict));
    assert_eq!(classify_file(Some(&h1), None, Some(&h1)), Some(ActionKind::DeleteLocal));
    assert_eq!(classify_file(Some(&h1), None, Some(&h2)), Some(ActionKind::DeleteLocal));
    assert_eq!(classify_file(None, Some(&h1), Some(&h1)), Some(ActionKind::DeleteRemote));
    assert_eq!(classify_file(Some(&h1), None, None), Some(ActionKind::LocalToRemote));
    assert_eq!(classify_file(None, Some(&h1), None), Some(ActionKind::RemoteToLocal));
    assert_eq!(classify_file(None, None, Some(&h1)), None);
    assert_eq!(classify_file(None, None, None), None);
}

#[test]
fn decision_is_symmetric_in_the_two_sides() {
    let h0 = file(&["f"], "h0", 1);
    let h1 = file(&["f"], "h1", 1);
    assert_eq!(classify_file(Some(&h1), Some(&h0), Some(&h0)), Some(ActionKind::LocalToRemote));
    assert_eq!(classify_file(Some(&h0), Some(&h1), Some(&h0)), Some(ActionKind::RemoteToLocal));
    assert_eq!(classify_file(Some(&h1), None, Some(&h0)), Some(ActionKind::DeleteLocal));
    assert_eq!(classify_file(None, Some(&h1), Some(&h0)), Some(ActionKind::DeleteRemote));
}

#[test]
fn directory_table() {
    assert_eq!(classify_dir(true, false, true), Some(ActionKind::DeleteLocalDir));
    assert_eq!(classify_dir(false, true, true), Some(ActionKind::DeleteRemoteDir));
    assert_eq!(classify_dir(true, false, false), Some(ActionKind::CreateRemoteDir));
    assert_eq!(classify_dir(false, true, false), Some(ActionKind::CreateLocalDir));
    assert_eq!(classify_dir(true, true, false), None);
    assert_eq!(classify_dir(true, true, true), None);
    assert_eq!(classify_dir(false, false, true), None);
    assert_eq!(classify_dir(false, false, false), None);
}

#[test]
fn new_directories_are_created_topmost_only_and_before_copies() {
    let local = tree(
        vec![file(&["docs", "deep", "a.txt"], "h1", 4)],
        vec![path(&["docs", "deep"]), path(&["docs"]), path(&["x"])],
    );
    let remote = tree(vec![], vec![path(&["x"])]);
    let last = tree(vec![], vec![]);
    let plan = plan_sync(&local, &remote, &last);
    assert_eq!(
        plan.actions,
        vec![
            SyncAction::CreateRemoteDir(path(&["docs"])),
            SyncAction::LocalToRemote(path(&["docs", "deep", "a.txt"])),
        ]
    );
    assert_eq!(plan.total_size, 4);
}

#[test]
fn creations_go_shallowest_first_and_deletions_deepest_first() {
    let local = tree(
        vec![],
        vec![path(&["a", "b", "c"]), path(&["d"]), path(&["e", "f"]), path(&["old", "x", "y"]), path(&["gone"])],
    );
    let remote = tree(vec![], vec![]);
    let last = tree(vec![], vec![path(&["old", "x", "y"]), path(&["gone"])]);
    let plan = plan_sync(&local, &remote, &last);
    assert_eq!(
        plan.actions,
        vec![
            SyncAction::CreateRemoteDir(path(&["d"])),
            SyncAction::CreateRemoteDir(path(&["e", "f"])),
            SyncAction::CreateRemoteDir(path(&["a", "b", "c"])),
            SyncAction::DeleteLocalDir(path(&["old", "x", "y"])),
            SyncAction::DeleteLocalDir(path(&["gone"])),
        ]
    );
}

#[test]
fn deleted_directory_is_deleted_once_at_the_top() {
    let local = tree(vec![], vec![]);
    let remote = tree(vec![], vec![path(&["p"]), path(&["p", "q"]), path(&["p", "q", "r"])]);
    let last = tree(vec![], vec![path(&["p"]), path(&["p", "q"]), path(&["p", "q", "r"])]);
    let plan = plan_sync(&local, &remote, &last);
    assert_eq!(plan.actions, vec![SyncAction::DeleteRemoteDir(path(&["p"]))]);
}

#[test]
fn plan_sections_keep_their_order() {
    let local = tree(
        vec![file(&["new.txt"], "n", 10), file(&["both.txt"], "l", 20)],
        vec![path(&["made"]), path(&["doomed"])],
    );
    let remote = tree(
        vec![file(&["both.txt"], "r", 30), file(&["theirs.txt"], "t", 40)],
        vec![path(&["theirs"])],
    );
    let last = tree(vec![file(&["both.txt"], "l", 20)], vec![path(&["doomed"])]);
    let plan = plan_sync(&local, &remote, &last);
    assert_eq!(
        plan.actions,
        vec![
            SyncAction::CreateLocalDir(path(&["theirs"])),
            SyncAction::CreateRemoteDir(path(&["made"])),
            SyncAction::LocalToRemote(path(&["new.txt"])),
            SyncAction::RemoteToLocal(path(&["both.txt"])),
            SyncAction::RemoteToLocal(path(&["theirs.txt"])),
            SyncAction::DeleteLocalDir(path(&["doomed"])),
        ]
    );
    // 10 for the new local file, 30 and 40 for the two remote sources.
    assert_eq!(plan.total_size, 80);
}

#[test]
fn total_size_stops_at_the_largest_count() {
    let local = tree(
        vec![file(&["a"], "1", u64::MAX), file(&["b"], "2", 5)],
        vec![],
    );
    let remote = tree(vec![], vec![]);
    let last = tree(vec![], vec![]);
    let plan = plan_sync(&local, &remote, &last);
    assert_eq!(plan.actions.len(), 2);
    assert_eq!(plan.total_size, u64::MAX);
}

#[test]
fn trees_in_agreement_plan_nothing() {
    let files = vec![file(&["a.txt"], "h1", 1), file(&["d", "b.txt"], "h2", 2)];
    let dirs = vec![path(&["d"])];
    let local = tree(files.clone(), dirs.clone());
    let remote = tree(files.clone(), dirs.clone());
    let last = tree(files, dirs);
    let plan = plan_sync(&local, &remote, &last);
    assert_eq!(plan.actions, vec![]);
    assert_eq!(plan.total_size, 0);
}

#[test]
fn exchanging_the_sides_exchanges_the_directions() {
    let a = tree(vec![file(&["only_a"], "x", 1), file(&["both"], "a", 2)], vec![path(&["da"])]);
    let b = tree(vec![file(&["both"], "b", 3)], vec![]);
    let last = tree(vec![file(&["both"], "b", 3)], vec![]);
    let forward = plan_sync(&a, &b, &last);
    let backward = plan_sync(&b, &a, &last);
    assert_eq!(
        forward.actions,
        vec![
            SyncAction::CreateRemoteDir(path(&["da"])),
            SyncAction::LocalToRemote(path(&["only_a"])),
            SyncAction::LocalToRemote(path(&["both"])),
        ]
    );
    assert_eq!(
        backward.actions,
        vec![
            SyncAction::CreateLocalDir(path(&["da"])),
            SyncAction::RemoteToLocal(path(&["both"])),
            SyncAction::RemoteToLocal(path(&["only_a"])),
        ]
    );
}

#[test]
fn planning_goes_through_when_nobody_stops_it() {
    let local = tree(vec![file(&["a"], "1", 1), file(&["b"], "2", 2)], vec![path(&["d"])]);
    let remote = tree(vec![file(&["c"], "3", 3)], vec![]);
    let last = tree(vec![], vec![]);
    let asked = Cell::new(0);
    let never = || {
        asked.set(asked.get() + 1);
        false
    };
    let plan = plan_sync_unless(&local, &remote, &last, &never);
    assert_eq!(plan, Some(plan_sync(&local, &remote, &last)));
    // Once before each file of either tree.
    assert_eq!(asked.get(), 3);
}

#[test]
fn planning_stops_at_the_first_file_after_the_request() {
    let local = tree(vec![file(&["a"], "1", 1), file(&["b"], "2", 2)], vec![]);
    let remote = tree(vec![file(&["c"], "3", 3)], vec![]);
    let last = tree(vec![], vec![]);
    assert_eq!(plan_sync_unless(&local, &remote, &last, &|| true), None);
    let asked = Cell::new(0);
    let at_the_third = || {
        asked.set(asked.get() + 1);
        asked.get() == 3
    };
    assert_eq!(plan_sync_unless(&local, &remote, &last, &at_the_third), None);
    assert_eq!(asked.get(), 3);
}

#[test]
fn planning_without_files_asks_nobody() {
    let local = tree(vec![], vec![path(&["d"])]);
    let remote = tree(vec![], vec![]);
    let last = tree(vec![], vec![]);
    let plan = plan_sync_unless(&local, &remote, &last, &|| true);
    assert_eq!(plan, Some(plan_sync(&local, &remote, &last)));
}

#[test]
fn refused_remote_deletion_brings_the_file_back() {
    // The mirror kept the file; the new baseline, taken from the local
    // tree, does not list it.
    let local = tree(vec![], vec![]);
    let remote = tree(vec![file(&["a.txt"], "h0", 5)], vec![]);
    let last = tree(vec![file(&["a.txt"], "h0", 5)], vec![]);
    let first = plan_sync(&local, &remote, &last);
    assert_eq!(first.actions, vec![SyncAction::DeleteRemote(path(&["a.txt"]))]);
    let second = plan_sync(&local, &remote, &local);
    assert_eq!(second.actions, vec![SyncAction::RemoteToLocal(path(&["a.txt"]))]);
    assert_eq!(second.total_size, 5);
}

#[test]
fn skipped_conflict_comes_up_again() {
    let local = tree(vec![file(&["a.txt"], "h1", 5), file(&["b"], "x", 1)], vec![]);
    let remote = tree(vec![file(&["a.txt"], "h2", 7), file(&["b"], "x", 1)], vec![]);
    // The new baseline leaves the skipped path out.
    let recorded = syncu::run::new_baseline(
        tree(vec![file(&["a.txt"], "h1", 5), file(&["b"], "x", 1)], vec![]),
        &vec![path(&["a.txt"])],
    );
    let plan = plan_sync(&local, &remote, &recorded);
    assert_eq!(plan.actions, vec![SyncAction::Conflict { path: path(&["a.txt"]) }]);
}

#[test]
fn nested_new_directories_are_settled_by_one_creation() {
    let dirs = vec![path(&["a"]), path(&["a", "b"]), path(&["a", "b", "c"])];
    let local = tree(vec![], dirs.clone());
    let remote = tree(vec![], vec![]);
    let last = tree(vec![], vec![]);
    let plan = plan_sync(&local, &remote, &last);
    assert_eq!(plan.actions, vec![SyncAction::CreateRemoteDir(path(&["a"]))]);
    // The creation brings all that the local tree holds below `a`.
    let created = syncu::executor::created_with(&local, &path(&["a"]));
    assert_eq!(created, dirs);
    let mirror = tree(vec![], created);
    let next = plan_sync(&local, &mirror, &local);
    assert_eq!(next.actions, vec![]);
}
