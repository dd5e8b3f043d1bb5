//! The three-way comparison of the local tree, the remote tree and the
//! snapshot of the last synchronisation, and the plan that follows from it.

use vstd::prelude::*;
use crate::models::{
    action_views, path_views, records, ActionKind, ActionView, FileInfo, FileRecord, SyncAction,
    SyncData, TreeView,
};
use crate::paths::{PathView, SyncPath};
use crate::prune::{prune_ancestor_paths, prune_descendant_paths, without_descendants};

verus! {

/// What to do with a file, given its fingerprint in the local tree, in the
/// remote tree and at the last synchronisation (`None`: no file there).
pub open spec fn decide_file(
    local: Option<Seq<char>>,
    remote: Option<Seq<char>>,
    last: Option<Seq<char>>,
) -> Option<ActionKind> {
    match (local, remote, last) {
        (Some(h1), Some(h2), Some(h0)) => if h1 != h0 && h2 != h0 {
            if h1 == h2 {
                None
            } else {
                Some(ActionKind::Conflict)
            }
        } else if h1 != h0 {
            Some(ActionKind::LocalToRemote)
        } else if h2 != h0 {
            Some(ActionKind::RemoteToLocal)
        } else {
            None
        },
        (Some(h1), Some(h2), None) => if h1 == h2 {
            None
        } else {
            Some(ActionKind::Conflict)
        },
        (Some(_), None, Some(_)) => Some(ActionKind::DeleteLocal),
        (None, Some(_), Some(_)) => Some(ActionKind::DeleteRemote),
        (Some(_), None, None) => Some(ActionKind::LocalToRemote),
        (None, Some(_), None) => Some(ActionKind::RemoteToLocal),
        (None, None, _) => None,
    }
}

/// What to do with a directory, given where it is present.
pub open spec fn decide_dir(in_local: bool, in_remote: bool, in_last: bool) -> Option<ActionKind> {
    if in_local && !in_remote {
        if in_last {
            Some(ActionKind::DeleteLocalDir)
        } else {
            Some(ActionKind::CreateRemoteDir)
        }
    } else if !in_local && in_remote {
        if in_last {
            Some(ActionKind::DeleteRemoteDir)
        } else {
            Some(ActionKind::CreateLocalDir)
        }
    } else {
        None
    }
}

/// The fingerprint of a record that may be absent.
pub open spec fn hash_of(info: Option<&FileInfo>) -> Option<Seq<char>> {
    match info {
        Some(f) => Some(f@.hash),
        None => None,
    }
}

/// Classifies one file by its three records.
pub fn classify_file(
    local: Option<&FileInfo>,
    remote: Option<&FileInfo>,
    last: Option<&FileInfo>,
) -> (kind: Option<ActionKind>)
    ensures
        kind == decide_file(hash_of(local), hash_of(remote), hash_of(last)),
{
    match (local, remote, last) {
        (Some(l), Some(r), Some(s)) => {
            let local_changed = l.hash != s.hash;
            let remote_changed = r.hash != s.hash;
            if local_changed && remote_changed {
                if l.hash == r.hash {
                    None
                } else {
                    Some(ActionKind::Conflict)
                }
            } else if local_changed {
                Some(ActionKind::LocalToRemote)
            } else if remote_changed {
                Some(ActionKind::RemoteToLocal)
            } else {
                None
            }
        },
        (Some(l), Some(r), None) => {
            if l.hash == r.hash {
                None
            } else {
                Some(ActionKind::Conflict)
            }
        },
        (Some(_), None, Some(_)) => Some(ActionKind::DeleteLocal),
        (None, Some(_), Some(_)) => Some(ActionKind::DeleteRemote),
        (Some(_), None, None) => Some(ActionKind::LocalToRemote),
        (None, Some(_), None) => Some(ActionKind::RemoteToLocal),
        (None, None, _) => None,
    }
}

/// Classifies one directory by where it is present.
pub fn classify_dir(in_local: bool, in_remote: bool, in_last: bool) -> (kind: Option<ActionKind>)
    ensures
        kind == decide_dir(in_local, in_remote, in_last),
{
    if in_local && !in_remote {
        if in_last {
            Some(ActionKind::DeleteLocalDir)
        } else {
            Some(ActionKind::CreateRemoteDir)
        }
    } else if !in_local && in_remote {
        if in_last {
            Some(ActionKind::DeleteRemoteDir)
        } else {
            Some(ActionKind::CreateLocalDir)
        }
    } else {
        None
    }
}

/// The test for the directories that call for an action of the given kind.
pub open spec fn wants_dir(
    local: TreeView,
    remote: TreeView,
    last: TreeView,
    kind: ActionKind,
) -> spec_fn(PathView) -> bool {
    |d: PathView| decide_dir(local.has_dir(d), remote.has_dir(d), last.has_dir(d)) == Some(kind)
}

/// The test for the paths of a given depth.
pub open spec fn depth_is(depth: nat) -> spec_fn(PathView) -> bool {
    |p: PathView| p.len() == depth
}

/// The greatest depth among `paths`; 0 where there is none.
pub open spec fn deepest(paths: Seq<PathView>) -> nat
    decreases paths.len(),
{
    if paths.len() == 0 {
        0
    } else {
        let rest = deepest(paths.drop_last());
        if paths.last().len() > rest {
            paths.last().len()
        } else {
            rest
        }
    }
}

/// The paths of depth below `levels`, level by level from the root down;
/// within a level in their order in `paths`.
pub open spec fn ascending(paths: Seq<PathView>, levels: nat) -> Seq<PathView>
    decreases levels,
{
    if levels == 0 {
        Seq::empty()
    } else {
        ascending(paths, (levels - 1) as nat) + paths.filter(depth_is((levels - 1) as nat))
    }
}

/// The paths of depth at least `from` and below `levels`, level by level
/// from the deepest up; within a level in their order in `paths`.
pub open spec fn descending(paths: Seq<PathView>, from: nat, levels: nat) -> Seq<PathView>
    decreases levels - from,
{
    if from >= levels {
        Seq::empty()
    } else {
        descending(paths, from + 1, levels) + paths.filter(depth_is(from))
    }
}

/// `paths` with the shallowest first.
pub open spec fn shallowest_first(paths: Seq<PathView>) -> Seq<PathView> {
    ascending(paths, deepest(paths) + 1)
}

/// `paths` with the deepest first.
pub open spec fn deepest_first(paths: Seq<PathView>) -> Seq<PathView> {
    descending(paths, 0, deepest(paths) + 1)
}

/// One action of the given kind for each of `paths`, in their order.
pub open spec fn dir_actions(kind: ActionKind, paths: Seq<PathView>) -> Seq<ActionView> {
    Seq::new(paths.len(), |i: int| ActionView { kind, path: paths[i] })
}

/// The directories of `source` that call for `kind`, without those that lie
/// below another of them.
pub open spec fn pruned_dirs(
    source: Seq<PathView>,
    local: TreeView,
    remote: TreeView,
    last: TreeView,
    kind: ActionKind,
) -> Seq<PathView> {
    without_descendants(source.filter(wants_dir(local, remote, last, kind)))
}

/// The action, if any, for a file of the local tree.
pub open spec fn local_file_action(remote: TreeView, last: TreeView) -> spec_fn(FileRecord) -> Option<
    ActionView,
> {
    |f: FileRecord|
        match decide_file(Some(f.hash), remote.hash(f.path), last.hash(f.path)) {
            Some(kind) => Some(ActionView { kind, path: f.path }),
            None => None,
        }
}

/// The action, if any, for a file of the remote tree that the local tree
/// does not hold.
pub open spec fn remote_file_action(local: TreeView, last: TreeView) -> spec_fn(FileRecord) -> Option<
    ActionView,
> {
    |f: FileRecord|
        if local.file(f.path) is Some {
            None
        } else {
            match decide_file(None, Some(f.hash), last.hash(f.path)) {
                Some(kind) => Some(ActionView { kind, path: f.path }),
                None => None,
            }
        }
}

/// The bytes that the action for a file of the local tree will move: the
/// size of the copy's source, and for a conflict that of the local file.
pub open spec fn local_file_bytes(remote: TreeView, last: TreeView) -> spec_fn(FileRecord) -> nat {
    |f: FileRecord|
        match decide_file(Some(f.hash), remote.hash(f.path), last.hash(f.path)) {
            Some(ActionKind::LocalToRemote) => f.size as nat,
            Some(ActionKind::Conflict) => f.size as nat,
            Some(ActionKind::RemoteToLocal) => remote.file(f.path)->0.size as nat,
            _ => 0,
        }
}

/// The bytes that the action for a file of the remote tree alone will move.
pub open spec fn remote_file_bytes(local: TreeView, last: TreeView) -> spec_fn(FileRecord) -> nat {
    |f: FileRecord|
        if local.file(f.path) is Some {
            0
        } else {
            match decide_file(None, Some(f.hash), last.hash(f.path)) {
                Some(ActionKind::RemoteToLocal) => f.size as nat,
                _ => 0,
            }
        }
}

/// The sum of `bytes` over `files`.
pub open spec fn sum_bytes(files: Seq<FileRecord>, bytes: spec_fn(FileRecord) -> nat) -> nat
    decreases files.len(),
{
    if files.len() == 0 {
        0
    } else {
        sum_bytes(files.drop_last(), bytes) + bytes(files.last())
    }
}

/// The plan for three snapshots: directory creations, shallowest first;
/// then the file actions, those for the local files before those for files
/// that only the remote tree holds; then directory deletions, deepest first.
pub open spec fn plan_of(local: TreeView, remote: TreeView, last: TreeView) -> Seq<ActionView> {
    dir_actions(
        ActionKind::CreateLocalDir,
        shallowest_first(
            pruned_dirs(remote.directories, local, remote, last, ActionKind::CreateLocalDir),
        ),
    ) + dir_actions(
        ActionKind::CreateRemoteDir,
        shallowest_first(
            pruned_dirs(local.directories, local, remote, last, ActionKind::CreateRemoteDir),
        ),
    ) + local.files.filter_map(local_file_action(remote, last)) + remote.files.filter_map(
        remote_file_action(local, last),
    ) + dir_actions(
        ActionKind::DeleteLocalDir,
        deepest_first(
            pruned_dirs(local.directories, local, remote, last, ActionKind::DeleteLocalDir),
        ),
    ) + dir_actions(
        ActionKind::DeleteRemoteDir,
        deepest_first(
            pruned_dirs(remote.directories, local, remote, last, ActionKind::DeleteRemoteDir),
        ),
    )
}

/// The bytes that carrying out `plan_of` will move: the sizes of the
/// sources of all copies, and of the local file of each conflict.
pub open spec fn transfer_bytes(local: TreeView, remote: TreeView, last: TreeView) -> nat {
    sum_bytes(local.files, local_file_bytes(remote, last)) + sum_bytes(
        remote.files,
        remote_file_bytes(local, last),
    )
}

/// `bytes`, held to what a `u64` can count.
pub open spec fn capped(bytes: nat) -> u64 {
    if bytes > u64::MAX {
        u64::MAX
    } else {
        bytes as u64
    }
}

/// A plan: the actions in the order in which they are to be carried out, and
/// the number of bytes that its copies and conflicts stand for.
#[derive(Debug, PartialEq, Eq)]
pub struct SyncPlan {
    pub actions: Vec<SyncAction>,
    pub total_size: u64,
}

/// The directories of `source` that call for an action of the given kind.
fn wanted_dirs(
    source: &Vec<SyncPath>,
    local: &SyncData,
    remote: &SyncData,
    last: &SyncData,
    kind: ActionKind,
) -> (dirs: Vec<SyncPath>)
    ensures
        path_views(dirs@) == path_views(source@).filter(wants_dir(local@, remote@, last@, kind)),
{
    let ghost all = path_views(source@);
    let ghost wanted = wants_dir(local@, remote@, last@, kind);
    let mut dirs: Vec<SyncPath> = Vec::new();
    let mut i: usize = 0;
    assert(all.take(0) =~= Seq::<PathView>::empty());
    assert(path_views(dirs@) =~= Seq::<PathView>::empty());
    while i < source.len()
        invariant
            i <= source.len(),
            all == path_views(source@),
            wanted == wants_dir(local@, remote@, last@, kind),
            path_views(dirs@) == all.take(i as int).filter(wanted),
        decreases source.len() - i,
    {
        let ghost before = path_views(dirs@);
        proof {
            all.lemma_take_succ_push(i as int);
            all.take(i as int).lemma_filter_push(all[i as int], wanted);
        }
        let d = &source[i];
        let found = classify_dir(
            local.has_directory(d),
            remote.has_directory(d),
            last.has_directory(d),
        );
        let hit = match found {
            Some(k) => k == kind,
            None => false,
        };
        if hit {
            dirs.push(d.clone());
            assert(path_views(dirs@) =~= before.push(all[i as int]));
        }
        i += 1;
    }
    assert(all.take(source.len() as int) =~= all);
    dirs
}

/// The greatest depth among `paths`.
fn max_depth(paths: &Vec<SyncPath>) -> (depth: usize)
    ensures
        depth == deepest(path_views(paths@)),
{
    let ghost all = path_views(paths@);
    let mut depth: usize = 0;
    let mut i: usize = 0;
    assert(all.take(0) =~= Seq::<PathView>::empty());
    while i < paths.len()
        invariant
            i <= paths.len(),
            all == path_views(paths@),
            depth == deepest(all.take(i as int)),
        decreases paths.len() - i,
    {
        proof {
            all.lemma_take_succ_push(i as int);
            assert(all.take(i as int + 1).drop_last() =~= all.take(i as int));
        }
        if paths[i].depth() > depth {
            depth = paths[i].depth();
        }
        i += 1;
    }
    assert(all.take(paths.len() as int) =~= all);
    depth
}

/// Appends to `actions` one action of the given kind for each of `paths`
/// that has the given depth.
fn push_level(actions: &mut Vec<SyncAction>, paths: &Vec<SyncPath>, depth: usize, kind: ActionKind)
    ensures
        action_views(final(actions)@) == action_views(old(actions)@) + dir_actions(
            kind,
            path_views(paths@).filter(depth_is(depth as nat)),
        ),
{
    let ghost all = path_views(paths@);
    let ghost start = action_views(actions@);
    let mut i: usize = 0;
    assert(all.take(0) =~= Seq::<PathView>::empty());
    assert(action_views(actions@) =~= start + dir_actions(
        kind,
        all.take(0).filter(depth_is(depth as nat)),
    ));
    while i < paths.len()
        invariant
            i <= paths.len(),
            all == path_views(paths@),
            action_views(actions@) == start + dir_actions(
                kind,
                all.take(i as int).filter(depth_is(depth as nat)),
            ),
        decreases paths.len() - i,
    {
        let ghost before = action_views(actions@);
        let ghost level = all.take(i as int).filter(depth_is(depth as nat));
        proof {
            all.lemma_take_succ_push(i as int);
            all.take(i as int).lemma_filter_push(all[i as int], depth_is(depth as nat));
        }
        if paths[i].depth() == depth {
            actions.push(SyncAction::new(kind, paths[i].clone()));
            assert(action_views(actions@) =~= before.push(
                ActionView { kind, path: all[i as int] },
            ));
            assert(dir_actions(kind, level.push(all[i as int])) =~= dir_actions(kind, level).push(
                ActionView { kind, path: all[i as int] },
            ));
            assert(action_views(actions@) =~= start + dir_actions(
                kind,
                level.push(all[i as int]),
            ));
        }
        i += 1;
    }
    assert(all.take(paths.len() as int) =~= all);
}

/// `dir_actions` goes through concatenation.
proof fn lemma_dir_actions_add(kind: ActionKind, a: Seq<PathView>, b: Seq<PathView>)
    ensures
        dir_actions(kind, a + b) == dir_actions(kind, a) + dir_actions(kind, b),
{
    assert(dir_actions(kind, a + b) =~= dir_actions(kind, a) + dir_actions(kind, b));
}

/// Appends to `actions` one action of the given kind for each of `paths`,
/// the shallowest first.
fn push_shallowest_first(actions: &mut Vec<SyncAction>, paths: &Vec<SyncPath>, kind: ActionKind)
    ensures
        action_views(final(actions)@) == action_views(old(actions)@) + dir_actions(
            kind,
            shallowest_first(path_views(paths@)),
        ),
{
    let ghost all = path_views(paths@);
    let ghost start = action_views(actions@);
    let top = max_depth(paths);
    let mut depth: usize = 0;
    assert(action_views(actions@) =~= start + dir_actions(kind, ascending(all, 0)));
    loop
        invariant_except_break
            depth <= top,
            action_views(actions@) == start + dir_actions(kind, ascending(all, depth as nat)),
        invariant
            all == path_views(paths@),
            top == deepest(all),
        ensures
            action_views(actions@) == start + dir_actions(kind, ascending(all, (top + 1) as nat)),
        decreases top - depth,
    {
        push_level(actions, paths, depth, kind);
        proof {
            lemma_dir_actions_add(
                kind,
                ascending(all, depth as nat),
                all.filter(depth_is(depth as nat)),
            );
            assert(action_views(actions@) =~= start + dir_actions(
                kind,
                ascending(all, (depth + 1) as nat),
            ));
        }
        if depth == top {
            break ;
        }
        depth += 1;
    }
}

/// Appends to `actions` one action of the given kind for each of `paths`,
/// the deepest first.
fn push_deepest_first(actions: &mut Vec<SyncAction>, paths: &Vec<SyncPath>, kind: ActionKind)
    ensures
        action_views(final(actions)@) == action_views(old(actions)@) + dir_actions(
            kind,
            deepest_first(path_views(paths@)),
        ),
{
    let ghost all = path_views(paths@);
    let ghost start = action_views(actions@);
    let top = max_depth(paths);
    let mut depth: usize = top;
    assert(action_views(actions@) =~= start + dir_actions(
        kind,
        descending(all, (top + 1) as nat, (top + 1) as nat),
    ));
    loop
        invariant_except_break
            depth <= top,
            action_views(actions@) == start + dir_actions(
                kind,
                descending(all, (depth + 1) as nat, (top + 1) as nat),
            ),
        invariant
            all == path_views(paths@),
            top == deepest(all),
        ensures
            action_views(actions@) == start + dir_actions(
                kind,
                descending(all, 0, (top + 1) as nat),
            ),
        decreases depth,
    {
        push_level(actions, paths, depth, kind);
        proof {
            lemma_dir_actions_add(
                kind,
                descending(all, (depth + 1) as nat, (top + 1) as nat),
                all.filter(depth_is(depth as nat)),
            );
            assert(action_views(actions@) =~= start + dir_actions(
                kind,
                descending(all, depth as nat, (top + 1) as nat),
            ));
        }
        if depth == 0 {
            break ;
        }
        depth -= 1;
    }
}

/// Where `kind` is the decision for a local file, the bytes that it moves.
fn bytes_for(kind: Option<ActionKind>, own: &FileInfo, other: Option<&FileInfo>) -> (bytes: u64)
    ensures
        bytes == match kind {
            Some(ActionKind::LocalToRemote) => own.size,
            Some(ActionKind::Conflict) => own.size,
            Some(ActionKind::RemoteToLocal) => match other {
                Some(o) => o.size,
                None => 0,
            },
            _ => 0,
        },
{
    match kind {
        Some(ActionKind::LocalToRemote) => own.size,
        Some(ActionKind::Conflict) => own.size,
        Some(ActionKind::RemoteToLocal) => match other {
            Some(o) => o.size,
            None => 0,
        },
        _ => 0,
    }
}

/// Appends to `actions` the actions for the files of the local tree, and
/// returns the bytes that they move.
fn push_local_files<F: Fn() -> bool>(
    actions: &mut Vec<SyncAction>,
    local: &SyncData,
    remote: &SyncData,
    last: &SyncData,
    stop: &F,
) -> (bytes: Option<u64>)
    requires
        call_requires(*stop, ()),
    ensures
        match bytes {
            Some(b) => action_views(final(actions)@) == action_views(old(actions)@)
                + local@.files.filter_map(local_file_action(remote@, last@)) && b == capped(
                sum_bytes(local@.files, local_file_bytes(remote@, last@)),
            ),
            None => call_ensures(*stop, (), true),
        },
{
    let files = local.files();
    let ghost all = local@.files;
    let ghost start = action_views(actions@);
    let ghost act = local_file_action(remote@, last@);
    let ghost weigh = local_file_bytes(remote@, last@);
    let mut bytes: u64 = 0;
    let mut i: usize = 0;
    assert(all.take(0) =~= Seq::<FileRecord>::empty());
    assert(action_views(actions@) =~= start + all.take(0).filter_map(act));
    while i < files.len()
        invariant
            i <= files.len(),
            all == records(files@),
            all == local@.files,
            act == local_file_action(remote@, last@),
            weigh == local_file_bytes(remote@, last@),
            action_views(actions@) == start + all.take(i as int).filter_map(act),
            bytes == capped(sum_bytes(all.take(i as int), weigh)),
            call_requires(*stop, ()),
        decreases files.len() - i,
    {
        if stop() {
            return None;
        }
        let ghost before = action_views(actions@);
        proof {
            all.lemma_filter_map_take_succ(act, i as int);
            assert(all.take(i as int + 1).drop_last() =~= all.take(i as int));
        }
        let f = &files[i];
        let r = remote.get(&f.path);
        let s = last.get(&f.path);
        let kind = classify_file(Some(f), r, s);
        assert(kind == decide_file(Some(all[i as int].hash), remote@.hash(f@.path), last@.hash(f@.path)));
        bytes = bytes.saturating_add(bytes_for(kind, f, r));
        match kind {
            Some(k) => {
                actions.push(SyncAction::new(k, f.path.clone()));
                assert(action_views(actions@) =~= before.push(
                    ActionView { kind: k, path: all[i as int].path },
                ));
            },
            None => {},
        }
        i += 1;
    }
    assert(all.take(files.len() as int) =~= all);
    Some(bytes)
}

/// Appends to `actions` the actions for the files that only the remote tree
/// holds, and returns the bytes that they move.
fn push_remote_files<F: Fn() -> bool>(
    actions: &mut Vec<SyncAction>,
    local: &SyncData,
    remote: &SyncData,
    last: &SyncData,
    stop: &F,
) -> (bytes: Option<u64>)
    requires
        call_requires(*stop, ()),
    ensures
        match bytes {
            Some(b) => action_views(final(actions)@) == action_views(old(actions)@)
                + remote@.files.filter_map(remote_file_action(local@, last@)) && b == capped(
                sum_bytes(remote@.files, remote_file_bytes(local@, last@)),
            ),
            None => call_ensures(*stop, (), true),
        },
{
    let files = remote.files();
    let ghost all = remote@.files;
    let ghost start = action_views(actions@);
    let ghost act = remote_file_action(local@, last@);
    let ghost weigh = remote_file_bytes(local@, last@);
    let mut bytes: u64 = 0;
    let mut i: usize = 0;
    assert(all.take(0) =~= Seq::<FileRecord>::empty());
    assert(action_views(actions@) =~= start + all.take(0).filter_map(act));
    while i < files.len()
        invariant
            i <= files.len(),
            all == records(files@),
            all == remote@.files,
            act == remote_file_action(local@, last@),
            weigh == remote_file_bytes(local@, last@),
            action_views(actions@) == start + all.take(i as int).filter_map(act),
            bytes == capped(sum_bytes(all.take(i as int), weigh)),
            call_requires(*stop, ()),
        decreases files.len() - i,
    {
        if stop() {
            return None;
        }
        let ghost before = action_views(actions@);
        proof {
            all.lemma_filter_map_take_succ(act, i as int);
            assert(all.take(i as int + 1).drop_last() =~= all.take(i as int));
        }
        let f = &files[i];
        if local.get(&f.path).is_none() {
            let s = last.get(&f.path);
            let kind = classify_file(None, Some(f), s);
            match kind {
                Some(k) => {
                    if k == ActionKind::RemoteToLocal {
                        bytes = bytes.saturating_add(f.size);
                    }
                    actions.push(SyncAction::new(k, f.path.clone()));
                    assert(action_views(actions@) =~= before.push(
                        ActionView { kind: k, path: all[i as int].path },
                    ));
                },
                None => {},
            }
        }
        i += 1;
    }
    assert(all.take(files.len() as int) =~= all);
    Some(bytes)
}

/// Plans as `plan_sync` does, and asks `stop` before each file whether to
/// go on. Once `stop` says yes there is no plan; a `stop` that never says
/// yes always gets one.
pub fn plan_sync_unless<F: Fn() -> bool>(
    local: &SyncData,
    remote: &SyncData,
    last: &SyncData,
    stop: &F,
) -> (plan: Option<SyncPlan>)
    requires
        call_requires(*stop, ()),
    ensures
        match plan {
            Some(p) => action_views(p.actions@) == plan_of(local@, remote@, last@) && p.total_size
                == capped(transfer_bytes(local@, remote@, last@)),
            None => call_ensures(*stop, (), true),
        },
{
    let mut actions: Vec<SyncAction> = Vec::new();
    assert(action_views(actions@) =~= Seq::<ActionView>::empty());
    let create_local = prune_ancestor_paths(
        &wanted_dirs(remote.directories(), local, remote, last, ActionKind::CreateLocalDir),
    );
    let create_remote = prune_ancestor_paths(
        &wanted_dirs(local.directories(), local, remote, last, ActionKind::CreateRemoteDir),
    );
    let delete_local = prune_descendant_paths(
        &wanted_dirs(local.directories(), local, remote, last, ActionKind::DeleteLocalDir),
    );
    let delete_remote = prune_descendant_paths(
        &wanted_dirs(remote.directories(), local, remote, last, ActionKind::DeleteRemoteDir),
    );
    push_shallowest_first(&mut actions, &create_local, ActionKind::CreateLocalDir);
    push_shallowest_first(&mut actions, &create_remote, ActionKind::CreateRemoteDir);
    let from_local = match push_local_files(&mut actions, local, remote, last, stop) {
        Some(bytes) => bytes,
        None => {
            return None;
        },
    };
    let from_remote = match push_remote_files(&mut actions, local, remote, last, stop) {
        Some(bytes) => bytes,
        None => {
            return None;
        },
    };
    push_deepest_first(&mut actions, &delete_local, ActionKind::DeleteLocalDir);
    push_deepest_first(&mut actions, &delete_remote, ActionKind::DeleteRemoteDir);
    assert(action_views(actions@) =~= plan_of(local@, remote@, last@));
    Some(SyncPlan { actions, total_size: from_local.saturating_add(from_remote) })
}

/// Compares the local tree and the remote tree with the snapshot of the last
/// synchronisation, and plans what brings the two trees into agreement.
pub fn plan_sync(local: &SyncData, remote: &SyncData, last: &SyncData) -> (plan: SyncPlan)
    ensures
        action_views(plan.actions@) == plan_of(local@, remote@, last@),
        plan.total_size == capped(transfer_bytes(local@, remote@, last@)),
{
    let never = || -> (stop: bool)
        ensures
            !stop,
        { false };
    match plan_sync_unless(local, remote, last, &never) {
        Some(plan) => plan,
        None => {
            proof {
                assert(false);
            }
            vstd::pervasive::unreached()
        },
    }
}

} // verus!
