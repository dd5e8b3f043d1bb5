//! What holds of every plan: which actions it contains, that the decision
//! for a path looks only at that path, that the two sides are treated alike,
//! and that trees in agreement need nothing.

use vstd::prelude::*;
use vstd::seq_lib::lemma_no_dup_in_concat;
use crate::seq_facts::{
    lemma_concat_contains, lemma_filter_map_has, lemma_filter_member, lemma_filter_no_dup,
    lemma_join,
};
use crate::models::{
    distinct_files, has_file, index_of_path, lemma_find_file_at, ActionKind, ActionView,
    FileRecord, TreeView,
};
use crate::executor::{created_for, is_work, lies_below, note_fits, Note};
use crate::paths::{is_ancestor, within, PathView};
use crate::planner::{
    ascending, decide_dir, decide_file, deepest, deepest_first, depth_is, descending, dir_actions,
    local_file_action, local_file_bytes, plan_of, pruned_dirs, remote_file_action,
    remote_file_bytes, shallowest_first, sum_bytes, transfer_bytes, wants_dir,
};
use crate::prune::{has_ancestor_in, law_pruned_paths_cover, topmost_in, without_descendants};

verus! {

/// The kinds of action that a file can call for.
pub open spec fn is_file_kind(kind: ActionKind) -> bool {
    kind == ActionKind::LocalToRemote || kind == ActionKind::RemoteToLocal || kind
        == ActionKind::DeleteLocal || kind == ActionKind::DeleteRemote || kind
        == ActionKind::Conflict
}

/// The same action with the two sides exchanged.
pub open spec fn mirrored(kind: ActionKind) -> ActionKind {
    match kind {
        ActionKind::LocalToRemote => ActionKind::RemoteToLocal,
        ActionKind::RemoteToLocal => ActionKind::LocalToRemote,
        ActionKind::DeleteLocal => ActionKind::DeleteRemote,
        ActionKind::DeleteRemote => ActionKind::DeleteLocal,
        ActionKind::CreateLocalDir => ActionKind::CreateRemoteDir,
        ActionKind::CreateRemoteDir => ActionKind::CreateLocalDir,
        ActionKind::DeleteLocalDir => ActionKind::DeleteRemoteDir,
        ActionKind::DeleteRemoteDir => ActionKind::DeleteLocalDir,
        ActionKind::Conflict => ActionKind::Conflict,
    }
}

/// A decision with the two sides exchanged.
pub open spec fn mirrored_decision(decision: Option<ActionKind>) -> Option<ActionKind> {
    match decision {
        Some(kind) => Some(mirrored(kind)),
        None => None,
    }
}

/// Whether the directory `path` calls for an action of the given kind.
pub open spec fn dir_wanted(
    local: TreeView,
    remote: TreeView,
    last: TreeView,
    kind: ActionKind,
    path: PathView,
) -> bool {
    decide_dir(local.has_dir(path), remote.has_dir(path), last.has_dir(path)) == Some(kind)
}

/// Whether a directory strictly above `path` calls for an action of the
/// given kind.
pub open spec fn ancestor_wanted(
    local: TreeView,
    remote: TreeView,
    last: TreeView,
    kind: ActionKind,
    path: PathView,
) -> bool {
    exists|above: PathView| #[trigger]
        is_ancestor(above, path) && dir_wanted(local, remote, last, kind, above)
}

/// The decision for a file looks only at which of the three records are
/// there and at which of their fingerprints are equal.
pub proof fn law_decision_by_presence_and_equality(
    l1: Option<Seq<char>>,
    r1: Option<Seq<char>>,
    s1: Option<Seq<char>>,
    l2: Option<Seq<char>>,
    r2: Option<Seq<char>>,
    s2: Option<Seq<char>>,
)
    requires
        (l1 is Some) == (l2 is Some),
        (r1 is Some) == (r2 is Some),
        (s1 is Some) == (s2 is Some),
        l1 is Some && r1 is Some ==> ((l1->0 == r1->0) == (l2->0 == r2->0)),
        l1 is Some && s1 is Some ==> ((l1->0 == s1->0) == (l2->0 == s2->0)),
        r1 is Some && s1 is Some ==> ((r1->0 == s1->0) == (r2->0 == s2->0)),
    ensures
        decide_file(l1, r1, s1) == decide_file(l2, r2, s2),
{
}

/// Exchanging the local and the remote record exchanges the direction of
/// the decision, and nothing else.
pub proof fn law_decision_mirrors(
    local: Option<Seq<char>>,
    remote: Option<Seq<char>>,
    last: Option<Seq<char>>,
)
    ensures
        decide_file(remote, local, last) == mirrored_decision(decide_file(local, remote, last)),
{
}

/// Exchanging the two sides exchanges the side of a directory decision.
pub proof fn law_dir_decision_mirrors(in_local: bool, in_remote: bool, in_last: bool)
    ensures
        decide_dir(in_remote, in_local, in_last) == mirrored_decision(
            decide_dir(in_local, in_remote, in_last),
        ),
{
}

proof fn lemma_dir_actions_member(kind: ActionKind, paths: Seq<PathView>, action: ActionView)
    ensures
        dir_actions(kind, paths).contains(action) <==> action.kind == kind && paths.contains(
            action.path,
        ),
{
    let acts = dir_actions(kind, paths);
    if acts.contains(action) {
        let i = choose|i: int| 0 <= i < acts.len() && acts[i] == action;
        assert(paths[i] == action.path);
    }
    if action.kind == kind && paths.contains(action.path) {
        let i = choose|i: int| 0 <= i < paths.len() && paths[i] == action.path;
        assert(acts[i] == action);
    }
}

proof fn lemma_deepest_bounds(paths: Seq<PathView>, path: PathView)
    requires
        paths.contains(path),
    ensures
        path.len() <= deepest(paths),
    decreases paths.len(),
{
    let i = choose|i: int| 0 <= i < paths.len() && paths[i] == path;
    if i < paths.len() - 1 {
        assert(paths.drop_last()[i] == path);
        lemma_deepest_bounds(paths.drop_last(), path);
    }
}

proof fn lemma_ascending_member(paths: Seq<PathView>, levels: nat, path: PathView)
    ensures
        ascending(paths, levels).contains(path) <==> paths.contains(path) && path.len() < levels,
    decreases levels,
{
    if levels > 0 {
        let below = (levels - 1) as nat;
        lemma_ascending_member(paths, below, path);
        lemma_filter_member(paths, depth_is(below), path);
        lemma_concat_contains(ascending(paths, below), paths.filter(depth_is(below)), path);
    }
}

proof fn lemma_descending_member(paths: Seq<PathView>, from: nat, levels: nat, path: PathView)
    ensures
        descending(paths, from, levels).contains(path) <==> paths.contains(path) && from
            <= path.len() < levels,
    decreases levels - from,
{
    if from < levels {
        lemma_descending_member(paths, from + 1, levels, path);
        lemma_filter_member(paths, depth_is(from), path);
        lemma_concat_contains(
            descending(paths, from + 1, levels),
            paths.filter(depth_is(from)),
            path,
        );
    }
}

/// Ordering by depth keeps exactly the paths that were there.
pub proof fn lemma_depth_order_keeps(paths: Seq<PathView>, path: PathView)
    ensures
        shallowest_first(paths).contains(path) <==> paths.contains(path),
        deepest_first(paths).contains(path) <==> paths.contains(path),
{
    lemma_ascending_member(paths, deepest(paths) + 1, path);
    lemma_descending_member(paths, 0, deepest(paths) + 1, path);
    if paths.contains(path) {
        lemma_deepest_bounds(paths, path);
    }
}

proof fn lemma_pruned_member(
    source: Seq<PathView>,
    local: TreeView,
    remote: TreeView,
    last: TreeView,
    kind: ActionKind,
    path: PathView,
)
    requires
        forall|d: PathView| dir_wanted(local, remote, last, kind, d) ==> source.contains(d),
    ensures
        pruned_dirs(source, local, remote, last, kind).contains(path) <==> dir_wanted(
            local,
            remote,
            last,
            kind,
            path,
        ) && !ancestor_wanted(local, remote, last, kind, path),
{
    let wanted = source.filter(wants_dir(local, remote, last, kind));
    lemma_filter_member(wanted, topmost_in(wanted), path);
    lemma_filter_member(source, wants_dir(local, remote, last, kind), path);
    if has_ancestor_in(wanted, path) {
        let i = choose|i: int| 0 <= i < wanted.len() && is_ancestor(#[trigger] wanted[i], path);
        lemma_filter_member(source, wants_dir(local, remote, last, kind), wanted[i]);
        assert(is_ancestor(wanted[i], path) && dir_wanted(local, remote, last, kind, wanted[i]));
    }
    if ancestor_wanted(local, remote, last, kind, path) {
        let above = choose|above: PathView| #[trigger]
            is_ancestor(above, path) && dir_wanted(local, remote, last, kind, above);
        lemma_filter_member(source, wants_dir(local, remote, last, kind), above);
        let i = choose|i: int| 0 <= i < wanted.len() && wanted[i] == above;
        assert(is_ancestor(wanted[i], path));
    }
}

/// A file action is planned for a path exactly when the decision over the
/// path's three fingerprints asks for it.
pub proof fn law_file_action_planned(
    local: TreeView,
    remote: TreeView,
    last: TreeView,
    kind: ActionKind,
    path: PathView,
)
    requires
        local.wf(),
        remote.wf(),
        last.wf(),
        is_file_kind(kind),
    ensures
        plan_of(local, remote, last).contains(ActionView { kind, path }) <==> decide_file(
            local.hash(path),
            remote.hash(path),
            last.hash(path),
        ) == Some(kind),
{
    let target = ActionView { kind, path };
    let a1 = dir_actions(
        ActionKind::CreateLocalDir,
        shallowest_first(
            pruned_dirs(remote.directories, local, remote, last, ActionKind::CreateLocalDir),
        ),
    );
    let a2 = dir_actions(
        ActionKind::CreateRemoteDir,
        shallowest_first(
            pruned_dirs(local.directories, local, remote, last, ActionKind::CreateRemoteDir),
        ),
    );
    let f1 = local.files.filter_map(local_file_action(remote, last));
    let f2 = remote.files.filter_map(remote_file_action(local, last));
    let d1 = dir_actions(
        ActionKind::DeleteLocalDir,
        deepest_first(
            pruned_dirs(local.directories, local, remote, last, ActionKind::DeleteLocalDir),
        ),
    );
    let d2 = dir_actions(
        ActionKind::DeleteRemoteDir,
        deepest_first(
            pruned_dirs(remote.directories, local, remote, last, ActionKind::DeleteRemoteDir),
        ),
    );
    lemma_concat_contains(a1, a2, target);
    lemma_concat_contains(a1 + a2, f1, target);
    lemma_concat_contains(a1 + a2 + f1, f2, target);
    lemma_concat_contains(a1 + a2 + f1 + f2, d1, target);
    lemma_concat_contains(a1 + a2 + f1 + f2 + d1, d2, target);
    lemma_dir_actions_member(ActionKind::CreateLocalDir, shallowest_first(
            pruned_dirs(remote.directories, local, remote, last, ActionKind::CreateLocalDir),
        ), target);
    lemma_dir_actions_member(ActionKind::CreateRemoteDir, shallowest_first(
            pruned_dirs(local.directories, local, remote, last, ActionKind::CreateRemoteDir),
        ), target);
    lemma_dir_actions_member(ActionKind::DeleteLocalDir, deepest_first(
            pruned_dirs(local.directories, local, remote, last, ActionKind::DeleteLocalDir),
        ), target);
    lemma_dir_actions_member(ActionKind::DeleteRemoteDir, deepest_first(
            pruned_dirs(remote.directories, local, remote, last, ActionKind::DeleteRemoteDir),
        ), target);
    assert(plan_of(local, remote, last).contains(target) <==> f1.contains(target) || f2.contains(
        target,
    ));
    let decision = decide_file(local.hash(path), remote.hash(path), last.hash(path));
    if f1.contains(target) {
        local.files.lemma_filter_map_contains(local_file_action(remote, last), target);
        let t = choose|t: FileRecord| #[trigger]
            local.files.contains(t) && local_file_action(remote, last)(t) == Some(target);
        let i = choose|i: int| 0 <= i < local.files.len() && local.files[i] == t;
        lemma_find_file_at(local.files, path, i);
        assert(decision == Some(kind));
    }
    if f2.contains(target) {
        remote.files.lemma_filter_map_contains(remote_file_action(local, last), target);
        let t = choose|t: FileRecord| #[trigger]
            remote.files.contains(t) && remote_file_action(local, last)(t) == Some(target);
        let i = choose|i: int| 0 <= i < remote.files.len() && remote.files[i] == t;
        lemma_find_file_at(remote.files, path, i);
        assert(decision == Some(kind));
    }
    if decision == Some(kind) {
        if local.hash(path) is Some {
            let i = index_of_path(local.files, path);
            lemma_filter_map_has(local.files, local_file_action(remote, last), i);
            assert(f1.contains(target));
        } else {
            let i = index_of_path(remote.files, path);
            lemma_filter_map_has(remote.files, remote_file_action(local, last), i);
            assert(f2.contains(target));
        }
    }
}

/// The kinds of action that a directory can call for.
pub open spec fn is_dir_kind(kind: ActionKind) -> bool {
    kind == ActionKind::CreateLocalDir || kind == ActionKind::CreateRemoteDir || kind
        == ActionKind::DeleteLocalDir || kind == ActionKind::DeleteRemoteDir
}

/// A directory action is planned for a path exactly when the directory
/// calls for it and no directory above it calls for the same.
pub proof fn law_dir_action_planned(
    local: TreeView,
    remote: TreeView,
    last: TreeView,
    kind: ActionKind,
    path: PathView,
)
    requires
        is_dir_kind(kind),
    ensures
        plan_of(local, remote, last).contains(ActionView { kind, path }) <==> dir_wanted(
            local,
            remote,
            last,
            kind,
            path,
        ) && !ancestor_wanted(local, remote, last, kind, path),
{
    let target = ActionView { kind, path };
    let make_local = pruned_dirs(remote.directories, local, remote, last, ActionKind::CreateLocalDir);
    let make_remote = pruned_dirs(local.directories, local, remote, last, ActionKind::CreateRemoteDir);
    let drop_local = pruned_dirs(local.directories, local, remote, last, ActionKind::DeleteLocalDir);
    let drop_remote = pruned_dirs(remote.directories, local, remote, last, ActionKind::DeleteRemoteDir);
    let a1 = dir_actions(ActionKind::CreateLocalDir, shallowest_first(make_local));
    let a2 = dir_actions(ActionKind::CreateRemoteDir, shallowest_first(make_remote));
    let f1 = local.files.filter_map(local_file_action(remote, last));
    let f2 = remote.files.filter_map(remote_file_action(local, last));
    let d1 = dir_actions(ActionKind::DeleteLocalDir, deepest_first(drop_local));
    let d2 = dir_actions(ActionKind::DeleteRemoteDir, deepest_first(drop_remote));
    lemma_concat_contains(a1, a2, target);
    lemma_concat_contains(a1 + a2, f1, target);
    lemma_concat_contains(a1 + a2 + f1, f2, target);
    lemma_concat_contains(a1 + a2 + f1 + f2, d1, target);
    lemma_concat_contains(a1 + a2 + f1 + f2 + d1, d2, target);
    lemma_dir_actions_member(ActionKind::CreateLocalDir, shallowest_first(make_local), target);
    lemma_dir_actions_member(ActionKind::CreateRemoteDir, shallowest_first(make_remote), target);
    lemma_dir_actions_member(ActionKind::DeleteLocalDir, deepest_first(drop_local), target);
    lemma_dir_actions_member(ActionKind::DeleteRemoteDir, deepest_first(drop_remote), target);
    lemma_depth_order_keeps(make_local, path);
    lemma_depth_order_keeps(make_remote, path);
    lemma_depth_order_keeps(drop_local, path);
    lemma_depth_order_keeps(drop_remote, path);
    if f1.contains(target) {
        local.files.lemma_filter_map_contains(local_file_action(remote, last), target);
    }
    if f2.contains(target) {
        remote.files.lemma_filter_map_contains(remote_file_action(local, last), target);
    }
    lemma_pruned_member(remote.directories, local, remote, last, ActionKind::CreateLocalDir, path);
    lemma_pruned_member(local.directories, local, remote, last, ActionKind::CreateRemoteDir, path);
    lemma_pruned_member(local.directories, local, remote, last, ActionKind::DeleteLocalDir, path);
    lemma_pruned_member(remote.directories, local, remote, last, ActionKind::DeleteRemoteDir, path);
}

/// Where both sides changed a file since the last synchronisation, and
/// differently, the plan holds a conflict for it and no copy in either
/// direction.
pub proof fn law_conflict_is_planned(
    local: TreeView,
    remote: TreeView,
    last: TreeView,
    path: PathView,
)
    requires
        local.wf(),
        remote.wf(),
        last.wf(),
        local.hash(path) is Some,
        remote.hash(path) is Some,
        last.hash(path) is Some,
        local.hash(path) != last.hash(path),
        remote.hash(path) != last.hash(path),
        local.hash(path) != remote.hash(path),
    ensures
        plan_of(local, remote, last).contains(ActionView { kind: ActionKind::Conflict, path }),
        !plan_of(local, remote, last).contains(
            ActionView { kind: ActionKind::LocalToRemote, path },
        ),
        !plan_of(local, remote, last).contains(
            ActionView { kind: ActionKind::RemoteToLocal, path },
        ),
{
    law_file_action_planned(local, remote, last, ActionKind::Conflict, path);
    law_file_action_planned(local, remote, last, ActionKind::LocalToRemote, path);
    law_file_action_planned(local, remote, last, ActionKind::RemoteToLocal, path);
}

/// Where no file and no directory calls for anything, the plan is empty.
pub proof fn law_nothing_wanted_plans_nothing(local: TreeView, remote: TreeView, last: TreeView)
    requires
        local.wf(),
        remote.wf(),
        last.wf(),
        forall|path: PathView| #[trigger]
            decide_file(local.hash(path), remote.hash(path), last.hash(path)) is None,
        forall|path: PathView| #[trigger]
            decide_dir(local.has_dir(path), remote.has_dir(path), last.has_dir(path)) is None,
    ensures
        plan_of(local, remote, last) == Seq::<ActionView>::empty(),
{
    let plan = plan_of(local, remote, last);
    if plan.len() > 0 {
        let first = plan[0];
        assert(plan.contains(first));
        let path = first.path;
        assert(first == ActionView { kind: first.kind, path });
        assert(decide_file(local.hash(path), remote.hash(path), last.hash(path)) is None);
        assert(decide_dir(local.has_dir(path), remote.has_dir(path), last.has_dir(path)) is None);
        if is_file_kind(first.kind) {
            law_file_action_planned(local, remote, last, first.kind, path);
        } else {
            law_dir_action_planned(local, remote, last, first.kind, path);
        }
    }
    assert(plan =~= Seq::<ActionView>::empty());
}

/// A second run plans nothing: where the two trees hold the same files with
/// the same content and the same directories, and the last synchronisation
/// recorded that content, the plan is empty.
pub proof fn law_second_run_plans_nothing(local: TreeView, remote: TreeView, last: TreeView)
    requires
        local.wf(),
        remote.wf(),
        last.wf(),
        forall|path: PathView| #[trigger] local.hash(path) == remote.hash(path),
        forall|path: PathView| #[trigger] last.hash(path) == local.hash(path),
        forall|path: PathView| #[trigger] local.has_dir(path) == remote.has_dir(path),
    ensures
        plan_of(local, remote, last) == Seq::<ActionView>::empty(),
{
    assert forall|path: PathView| #[trigger]
        decide_file(local.hash(path), remote.hash(path), last.hash(path)) is None by {
        assert(local.hash(path) == remote.hash(path));
        assert(last.hash(path) == local.hash(path));
    }
    assert forall|path: PathView| #[trigger]
        decide_dir(local.has_dir(path), remote.has_dir(path), last.has_dir(path)) is None by {
        assert(local.has_dir(path) == remote.has_dir(path));
    }
    law_nothing_wanted_plans_nothing(local, remote, last);
}

/// The plan treats the two sides alike: with the local and the remote tree
/// exchanged, it holds the same actions with their sides exchanged.
pub proof fn law_plan_mirrors(
    local: TreeView,
    remote: TreeView,
    last: TreeView,
    kind: ActionKind,
    path: PathView,
)
    requires
        local.wf(),
        remote.wf(),
        last.wf(),
    ensures
        plan_of(remote, local, last).contains(ActionView { kind: mirrored(kind), path })
            <==> plan_of(local, remote, last).contains(ActionView { kind, path }),
{
    if is_file_kind(kind) {
        law_file_action_planned(local, remote, last, kind, path);
        law_file_action_planned(remote, local, last, mirrored(kind), path);
        law_decision_mirrors(local.hash(path), remote.hash(path), last.hash(path));
    } else {
        law_dir_action_planned(local, remote, last, kind, path);
        law_dir_action_planned(remote, local, last, mirrored(kind), path);
        assert forall|d: PathView|
            dir_wanted(remote, local, last, mirrored(kind), d) == dir_wanted(
                local,
                remote,
                last,
                kind,
                d,
            ) by {
            law_dir_decision_mirrors(local.has_dir(d), remote.has_dir(d), last.has_dir(d));
        }
        if ancestor_wanted(local, remote, last, kind, path) {
            let above = choose|above: PathView| #[trigger]
                is_ancestor(above, path) && dir_wanted(local, remote, last, kind, above);
            assert(is_ancestor(above, path) && dir_wanted(
                remote,
                local,
                last,
                mirrored(kind),
                above,
            ));
        }
        if ancestor_wanted(remote, local, last, mirrored(kind), path) {
            let above = choose|above: PathView| #[trigger]
                is_ancestor(above, path) && dir_wanted(remote, local, last, mirrored(kind), above);
            assert(is_ancestor(above, path) && dir_wanted(local, remote, last, kind, above));
        }
    }
}

/// The place of a kind of action in a plan: directory creations come first,
/// the local ones before the remote ones; then the file actions; then the
/// directory deletions, the local ones before the remote ones.
pub open spec fn rank(kind: ActionKind) -> int {
    match kind {
        ActionKind::CreateLocalDir => 0,
        ActionKind::CreateRemoteDir => 1,
        ActionKind::DeleteLocalDir => 3,
        ActionKind::DeleteRemoteDir => 4,
        _ => 2,
    }
}

/// Whether `first` may stand before `second` in a plan: by rank; among
/// creations of one kind the shallower first, among directory deletions of
/// one kind the deeper first.
pub open spec fn in_order(first: ActionView, second: ActionView) -> bool {
    &&& rank(first.kind) <= rank(second.kind)
    &&& first.kind == second.kind && rank(first.kind) <= 1 ==> first.path.len()
        <= second.path.len()
    &&& first.kind == second.kind && rank(first.kind) >= 3 ==> first.path.len()
        >= second.path.len()
}

spec fn ordered(actions: Seq<ActionView>) -> bool {
    forall|i: int, j: int| 0 <= i < j < actions.len() ==> in_order(actions[i], actions[j])
}

spec fn ranked(actions: Seq<ActionView>, low: int, high: int) -> bool {
    forall|i: int| 0 <= i < actions.len() ==> low <= rank((#[trigger] actions[i]).kind) <= high
}

proof fn lemma_join_parts(a: Seq<ActionView>, b: Seq<ActionView>, low: int, mid: int, high: int)
    requires
        ordered(a),
        ordered(b),
        a.no_duplicates(),
        b.no_duplicates(),
        ranked(a, low, mid - 1),
        ranked(b, mid, high),
        low <= mid <= high,
    ensures
        ordered(a + b),
        (a + b).no_duplicates(),
        ranked(a + b, low, high),
{
    lemma_join(a, b);
    assert forall|i: int, j: int| 0 <= i < a.len() && 0 <= j < b.len() implies a[i] != b[j] by {
        assert(rank(a[i].kind) < rank(b[j].kind));
    }
    lemma_no_dup_in_concat(a, b);
    assert forall|i: int, j: int| 0 <= i < j < (a + b).len() implies in_order(
        (a + b)[i],
        (a + b)[j],
    ) by {
        if j < a.len() {
        } else if i >= a.len() {
            assert(in_order(b[i - a.len()], b[j - a.len()]));
        } else {
            assert(rank(a[i].kind) < rank(b[j - a.len()].kind));
        }
    }
}

proof fn lemma_ascending_sorted(paths: Seq<PathView>, levels: nat)
    requires
        paths.no_duplicates(),
    ensures
        ascending(paths, levels).no_duplicates(),
        forall|i: int, j: int|
            0 <= i < j < ascending(paths, levels).len() ==> (#[trigger] ascending(
                paths,
                levels,
            )[i]).len() <= (#[trigger] ascending(paths, levels)[j]).len(),
    decreases levels,
{
    if levels > 0 {
        let below = (levels - 1) as nat;
        let a = ascending(paths, below);
        let b = paths.filter(depth_is(below));
        lemma_ascending_sorted(paths, below);
        lemma_filter_no_dup(paths, depth_is(below));
        lemma_join(a, b);
        assert forall|i: int| 0 <= i < a.len() implies (#[trigger] a[i]).len() < below by {
            assert(a.contains(a[i]));
            lemma_ascending_member(paths, below, a[i]);
        }
        assert forall|j: int| 0 <= j < b.len() implies (#[trigger] b[j]).len() == below by {
            paths.lemma_filter_pred(depth_is(below), j);
        }
        lemma_no_dup_in_concat(a, b);
    }
}

proof fn lemma_descending_sorted(paths: Seq<PathView>, from: nat, levels: nat)
    requires
        paths.no_duplicates(),
    ensures
        descending(paths, from, levels).no_duplicates(),
        forall|i: int, j: int|
            0 <= i < j < descending(paths, from, levels).len() ==> (#[trigger] descending(
                paths,
                from,
                levels,
            )[i]).len() >= (#[trigger] descending(paths, from, levels)[j]).len(),
    decreases levels - from,
{
    if from < levels {
        let a = descending(paths, from + 1, levels);
        let b = paths.filter(depth_is(from));
        lemma_descending_sorted(paths, from + 1, levels);
        lemma_filter_no_dup(paths, depth_is(from));
        lemma_join(a, b);
        assert forall|i: int| 0 <= i < a.len() implies (#[trigger] a[i]).len() > from by {
            assert(a.contains(a[i]));
            lemma_descending_member(paths, from + 1, levels, a[i]);
        }
        assert forall|j: int| 0 <= j < b.len() implies (#[trigger] b[j]).len() == from by {
            paths.lemma_filter_pred(depth_is(from), j);
        }
        lemma_no_dup_in_concat(a, b);
    }
}

proof fn lemma_dir_part(
    source: Seq<PathView>,
    local: TreeView,
    remote: TreeView,
    last: TreeView,
    kind: ActionKind,
)
    requires
        source.no_duplicates(),
        is_dir_kind(kind),
    ensures
        ({
            let pruned = pruned_dirs(source, local, remote, last, kind);
            let part = if rank(kind) <= 1 {
                dir_actions(kind, shallowest_first(pruned))
            } else {
                dir_actions(kind, deepest_first(pruned))
            };
            ordered(part) && part.no_duplicates() && ranked(part, rank(kind), rank(kind))
        }),
{
    let wanted = source.filter(wants_dir(local, remote, last, kind));
    lemma_filter_no_dup(source, wants_dir(local, remote, last, kind));
    lemma_filter_no_dup(wanted, topmost_in(wanted));
    let pruned = pruned_dirs(source, local, remote, last, kind);
    lemma_ascending_sorted(pruned, deepest(pruned) + 1);
    lemma_descending_sorted(pruned, 0, deepest(pruned) + 1);
}

proof fn lemma_file_part(
    files: Seq<FileRecord>,
    act: spec_fn(FileRecord) -> Option<ActionView>,
)
    requires
        distinct_files(files),
        forall|f: FileRecord| #[trigger]
            act(f) matches Some(action) ==> action.path == f.path && is_file_kind(action.kind),
    ensures
        files.filter_map(act).no_duplicates(),
        ordered(files.filter_map(act)),
        ranked(files.filter_map(act), 2, 2),
        forall|i: int|
            0 <= i < files.filter_map(act).len() ==> has_file(
                files,
                (#[trigger] files.filter_map(act)[i]).path,
            ),
    decreases files.len(),
{
    let out = files.filter_map(act);
    if files.len() > 0 {
        let rest = files.drop_last();
        let before = rest.filter_map(act);
        lemma_file_part(rest, act);
        assert forall|i: int| 0 <= i < before.len() implies has_file(
            files,
            (#[trigger] before[i]).path,
        ) by {
            let k = choose|k: int|
                0 <= k < rest.len() && (#[trigger] rest[k]).path == before[i].path;
            assert(files[k].path == before[i].path);
        }
        match act(files.last()) {
            Some(action) => {
                assert(out == before + seq![action]);
                lemma_join(before, seq![action]);
                assert(files[files.len() - 1].path == action.path);
                assert forall|i: int, j: int| 0 <= i < j < out.len() implies out[i] != out[j] by {
                    if j == before.len() {
                        let k = choose|k: int|
                            0 <= k < rest.len() && (#[trigger] rest[k]).path == before[i].path;
                        assert(files[k].path != files[files.len() - 1].path);
                    }
                }
            },
            None => {},
        }
    }
}

/// A plan holds no action twice, and its actions stand in order: directory
/// creations first, the shallower before the deeper; then the file actions;
/// then the directory deletions, the deeper before the shallower.
pub proof fn law_plan_is_ordered_and_deduplicated(
    local: TreeView,
    remote: TreeView,
    last: TreeView,
)
    requires
        local.wf(),
        remote.wf(),
        last.wf(),
    ensures
        plan_of(local, remote, last).no_duplicates(),
        forall|i: int, j: int|
            0 <= i < j < plan_of(local, remote, last).len() ==> in_order(
                #[trigger] plan_of(local, remote, last)[i],
                #[trigger] plan_of(local, remote, last)[j],
            ),
{
    let a1 = dir_actions(
        ActionKind::CreateLocalDir,
        shallowest_first(
            pruned_dirs(remote.directories, local, remote, last, ActionKind::CreateLocalDir),
        ),
    );
    let a2 = dir_actions(
        ActionKind::CreateRemoteDir,
        shallowest_first(
            pruned_dirs(local.directories, local, remote, last, ActionKind::CreateRemoteDir),
        ),
    );
    let f1 = local.files.filter_map(local_file_action(remote, last));
    let f2 = remote.files.filter_map(remote_file_action(local, last));
    let d1 = dir_actions(
        ActionKind::DeleteLocalDir,
        deepest_first(
            pruned_dirs(local.directories, local, remote, last, ActionKind::DeleteLocalDir),
        ),
    );
    let d2 = dir_actions(
        ActionKind::DeleteRemoteDir,
        deepest_first(
            pruned_dirs(remote.directories, local, remote, last, ActionKind::DeleteRemoteDir),
        ),
    );
    lemma_dir_part(remote.directories, local, remote, last, ActionKind::CreateLocalDir);
    lemma_dir_part(local.directories, local, remote, last, ActionKind::CreateRemoteDir);
    lemma_dir_part(local.directories, local, remote, last, ActionKind::DeleteLocalDir);
    lemma_dir_part(remote.directories, local, remote, last, ActionKind::DeleteRemoteDir);
    lemma_file_part(local.files, local_file_action(remote, last));
    lemma_file_part(remote.files, remote_file_action(local, last));
    // The file actions of the two sides: of one rank, and never at one path.
    lemma_join(f1, f2);
    assert forall|i: int, j: int| 0 <= i < f1.len() && 0 <= j < f2.len() implies f1[i]
        != f2[j] by {
        remote.files.lemma_filter_map_contains(remote_file_action(local, last), f2[j]);
        assert(f2.contains(f2[j]));
        let t = choose|t: FileRecord| #[trigger]
            remote.files.contains(t) && remote_file_action(local, last)(t) == Some(f2[j]);
        assert(!has_file(local.files, f2[j].path));
        assert(has_file(local.files, f1[i].path));
    }
    lemma_no_dup_in_concat(f1, f2);
    assert(ordered(f1 + f2)) by {
        assert forall|i: int, j: int| 0 <= i < j < (f1 + f2).len() implies in_order(
            (f1 + f2)[i],
            (f1 + f2)[j],
        ) by {
            assert(rank((f1 + f2)[i].kind) == 2);
            assert(rank((f1 + f2)[j].kind) == 2);
        }
    }
    assert(ranked(f1 + f2, 2, 2));
    lemma_join_parts(a1, a2, 0, 1, 1);
    lemma_join_parts(a1 + a2, f1 + f2, 0, 2, 2);
    lemma_join_parts(a1 + a2 + (f1 + f2), d1, 0, 3, 3);
    lemma_join_parts(a1 + a2 + (f1 + f2) + d1, d2, 0, 4, 4);
    assert(plan_of(local, remote, last) =~= a1 + a2 + (f1 + f2) + d1 + d2);
}

/// The bytes that one action moves: the size of the file that a copy reads,
/// and for a conflict the size of the local file.
pub open spec fn action_bytes(action: ActionView, local: TreeView, remote: TreeView) -> nat {
    match action.kind {
        ActionKind::LocalToRemote => local.file(action.path)->0.size as nat,
        ActionKind::Conflict => local.file(action.path)->0.size as nat,
        ActionKind::RemoteToLocal => remote.file(action.path)->0.size as nat,
        _ => 0,
    }
}

/// The bytes that the actions of a plan move, all together.
pub open spec fn plan_bytes(actions: Seq<ActionView>, local: TreeView, remote: TreeView) -> nat
    decreases actions.len(),
{
    if actions.len() == 0 {
        0
    } else {
        plan_bytes(actions.drop_last(), local, remote) + action_bytes(
            actions.last(),
            local,
            remote,
        )
    }
}

proof fn lemma_plan_bytes_add(
    a: Seq<ActionView>,
    b: Seq<ActionView>,
    local: TreeView,
    remote: TreeView,
)
    ensures
        plan_bytes(a + b, local, remote) == plan_bytes(a, local, remote) + plan_bytes(
            b,
            local,
            remote,
        ),
    decreases b.len(),
{
    if b.len() == 0 {
        assert(a + b =~= a);
    } else {
        lemma_plan_bytes_add(a, b.drop_last(), local, remote);
        assert((a + b).drop_last() =~= a + b.drop_last());
    }
}

proof fn lemma_dir_actions_move_nothing(
    kind: ActionKind,
    paths: Seq<PathView>,
    local: TreeView,
    remote: TreeView,
)
    requires
        is_dir_kind(kind),
    ensures
        plan_bytes(dir_actions(kind, paths), local, remote) == 0,
    decreases paths.len(),
{
    if paths.len() > 0 {
        lemma_dir_actions_move_nothing(kind, paths.drop_last(), local, remote);
        assert(dir_actions(kind, paths).drop_last() =~= dir_actions(kind, paths.drop_last()));
    }
}

proof fn lemma_local_files_move(
    files: Seq<FileRecord>,
    local: TreeView,
    remote: TreeView,
    last: TreeView,
)
    requires
        local.wf(),
        forall|i: int| 0 <= i < files.len() ==> local.files.contains(#[trigger] files[i]),
    ensures
        plan_bytes(files.filter_map(local_file_action(remote, last)), local, remote) == sum_bytes(
            files,
            local_file_bytes(remote, last),
        ),
    decreases files.len(),
{
    if files.len() > 0 {
        let rest = files.drop_last();
        let f = files.last();
        assert forall|i: int| 0 <= i < rest.len() implies local.files.contains(
            #[trigger] rest[i],
        ) by {
            assert(rest[i] == files[i]);
        }
        lemma_local_files_move(rest, local, remote, last);
        assert(local.files.contains(files[files.len() - 1]));
        let at = choose|at: int| 0 <= at < local.files.len() && local.files[at] == f;
        lemma_find_file_at(local.files, f.path, at);
        match local_file_action(remote, last)(f) {
            Some(action) => {
                let before = rest.filter_map(local_file_action(remote, last));
                assert((before + seq![action]).drop_last() =~= before);
            },
            None => {},
        }
    }
}

proof fn lemma_remote_files_move(
    files: Seq<FileRecord>,
    local: TreeView,
    remote: TreeView,
    last: TreeView,
)
    requires
        remote.wf(),
        forall|i: int| 0 <= i < files.len() ==> remote.files.contains(#[trigger] files[i]),
    ensures
        plan_bytes(files.filter_map(remote_file_action(local, last)), local, remote) == sum_bytes(
            files,
            remote_file_bytes(local, last),
        ),
    decreases files.len(),
{
    if files.len() > 0 {
        let rest = files.drop_last();
        let f = files.last();
        assert forall|i: int| 0 <= i < rest.len() implies remote.files.contains(
            #[trigger] rest[i],
        ) by {
            assert(rest[i] == files[i]);
        }
        lemma_remote_files_move(rest, local, remote, last);
        assert(remote.files.contains(files[files.len() - 1]));
        let at = choose|at: int| 0 <= at < remote.files.len() && remote.files[at] == f;
        lemma_find_file_at(remote.files, f.path, at);
        match remote_file_action(local, last)(f) {
            Some(action) => {
                let before = rest.filter_map(remote_file_action(local, last));
                assert((before + seq![action]).drop_last() =~= before);
            },
            None => {},
        }
    }
}

/// The total of a plan is the sum over its actions: each copy counts with
/// the size of the file it reads, each conflict with the size of its local
/// file, and nothing else counts.
pub proof fn law_total_counts_the_plan(local: TreeView, remote: TreeView, last: TreeView)
    requires
        local.wf(),
        remote.wf(),
        last.wf(),
    ensures
        transfer_bytes(local, remote, last) == plan_bytes(
            plan_of(local, remote, last),
            local,
            remote,
        ),
{
    let make_local = dir_actions(
        ActionKind::CreateLocalDir,
        shallowest_first(
            pruned_dirs(remote.directories, local, remote, last, ActionKind::CreateLocalDir),
        ),
    );
    let make_remote = dir_actions(
        ActionKind::CreateRemoteDir,
        shallowest_first(
            pruned_dirs(local.directories, local, remote, last, ActionKind::CreateRemoteDir),
        ),
    );
    let of_local = local.files.filter_map(local_file_action(remote, last));
    let of_remote = remote.files.filter_map(remote_file_action(local, last));
    let drop_local = dir_actions(
        ActionKind::DeleteLocalDir,
        deepest_first(
            pruned_dirs(local.directories, local, remote, last, ActionKind::DeleteLocalDir),
        ),
    );
    let drop_remote = dir_actions(
        ActionKind::DeleteRemoteDir,
        deepest_first(
            pruned_dirs(remote.directories, local, remote, last, ActionKind::DeleteRemoteDir),
        ),
    );
    lemma_dir_actions_move_nothing(
        ActionKind::CreateLocalDir,
        shallowest_first(
            pruned_dirs(remote.directories, local, remote, last, ActionKind::CreateLocalDir),
        ),
        local,
        remote,
    );
    lemma_dir_actions_move_nothing(
        ActionKind::CreateRemoteDir,
        shallowest_first(
            pruned_dirs(local.directories, local, remote, last, ActionKind::CreateRemoteDir),
        ),
        local,
        remote,
    );
    lemma_dir_actions_move_nothing(
        ActionKind::DeleteLocalDir,
        deepest_first(
            pruned_dirs(local.directories, local, remote, last, ActionKind::DeleteLocalDir),
        ),
        local,
        remote,
    );
    lemma_dir_actions_move_nothing(
        ActionKind::DeleteRemoteDir,
        deepest_first(
            pruned_dirs(remote.directories, local, remote, last, ActionKind::DeleteRemoteDir),
        ),
        local,
        remote,
    );
    assert forall|i: int| 0 <= i < local.files.len() implies local.files.contains(
        #[trigger] local.files[i],
    ) by {}
    assert forall|i: int| 0 <= i < remote.files.len() implies remote.files.contains(
        #[trigger] remote.files[i],
    ) by {}
    lemma_local_files_move(local.files, local, remote, last);
    lemma_remote_files_move(remote.files, local, remote, last);
    lemma_plan_bytes_add(make_local, make_remote, local, remote);
    lemma_plan_bytes_add(make_local + make_remote, of_local, local, remote);
    lemma_plan_bytes_add(make_local + make_remote + of_local, of_remote, local, remote);
    lemma_plan_bytes_add(
        make_local + make_remote + of_local + of_remote,
        drop_local,
        local,
        remote,
    );
    lemma_plan_bytes_add(
        make_local + make_remote + of_local + of_remote + drop_local,
        drop_remote,
        local,
        remote,
    );
}

/// The fingerprints of a file on the two sides after its action ended with
/// `note`: a copy makes the target like the source, a deletion removes the
/// file, a refusal or a skip changes nothing.
pub open spec fn after_action(
    note: Note,
    local: Option<Seq<char>>,
    remote: Option<Seq<char>>,
) -> (Option<Seq<char>>, Option<Seq<char>>) {
    match note {
        Note::CopiedToRemote => (local, local),
        Note::KeptLocal => (local, local),
        Note::CopiedToLocal => (remote, remote),
        Note::KeptRemote => (remote, remote),
        Note::DeletedLocalFile => (None, remote),
        Note::DeletedRemoteFile => (local, None),
        _ => (local, remote),
    }
}

/// What the next run has as its baseline for a file: the local file as the
/// run left it, or nothing where its conflict was skipped.
pub open spec fn recorded_after(note: Note, local_after: Option<Seq<char>>) -> Option<Seq<char>> {
    if note == Note::SkippedConflict {
        None
    } else {
        local_after
    }
}

/// A file whose action was carried out needs nothing at the next run: the
/// two sides agree, and the recorded baseline says so.
pub proof fn law_carried_out_action_settles(
    kind: ActionKind,
    note: Note,
    local: Option<Seq<char>>,
    remote: Option<Seq<char>>,
    last: Option<Seq<char>>,
)
    requires
        decide_file(local, remote, last) == Some(kind),
        note_fits(kind, note),
        is_work(note),
    ensures
        ({
            let (l, r) = after_action(note, local, remote);
            l == r && decide_file(l, r, recorded_after(note, l)) is None
        }),
{
}

/// A file that needed nothing needs nothing at the next run either.
pub proof fn law_settled_file_stays_settled(
    local: Option<Seq<char>>,
    remote: Option<Seq<char>>,
    last: Option<Seq<char>>,
)
    requires
        decide_file(local, remote, last) is None,
    ensures
        decide_file(local, remote, local) is None,
{
}

/// What the caller refused or skipped is not forgotten. A skipped conflict
/// comes up again as a conflict, and a refused deletion of a local file as
/// the same deletion. A refused deletion of a remote file leaves a file
/// that only the mirror holds: the next run copies it back.
pub proof fn law_unsettled_action_returns(
    kind: ActionKind,
    note: Note,
    local: Option<Seq<char>>,
    remote: Option<Seq<char>>,
    last: Option<Seq<char>>,
)
    requires
        decide_file(local, remote, last) == Some(kind),
        note_fits(kind, note),
        !is_work(note),
    ensures
        after_action(note, local, remote) == (local, remote),
        decide_file(local, remote, recorded_after(note, local)) == Some(
            if kind == ActionKind::DeleteRemote {
                ActionKind::RemoteToLocal
            } else {
                kind
            },
        ),
{
}

/// The tree whose directories an action of the given kind works from: a
/// directory is created on one side because the other side holds it, and
/// deleted on the side that still holds it.
pub open spec fn dir_source(kind: ActionKind, local: TreeView, remote: TreeView) -> Seq<PathView> {
    if kind == ActionKind::CreateLocalDir || kind == ActionKind::DeleteRemoteDir {
        remote.directories
    } else {
        local.directories
    }
}

/// No directory that calls for an action is left out of the plan by the
/// pruning: the plan holds an action of the same kind for the directory
/// itself or for one above it.
pub proof fn law_wanted_directory_is_covered(
    local: TreeView,
    remote: TreeView,
    last: TreeView,
    kind: ActionKind,
    path: PathView,
) -> (top: PathView)
    requires
        is_dir_kind(kind),
        dir_wanted(local, remote, last, kind, path),
    ensures
        within(path, top),
        plan_of(local, remote, last).contains(ActionView { kind, path: top }),
        dir_wanted(local, remote, last, kind, top),
{
    let source = dir_source(kind, local, remote);
    let wants = wants_dir(local, remote, last, kind);
    let wanted = source.filter(wants);
    lemma_filter_member(source, wants, path);
    law_pruned_paths_cover(wanted, path);
    let kept = without_descendants(wanted);
    let i = choose|i: int| 0 <= i < kept.len() && within(path, #[trigger] kept[i]);
    let top = kept[i];
    assert(kept.contains(top));
    assert(pruned_dirs(source, local, remote, last, kind).contains(top));
    lemma_pruned_member(source, local, remote, last, kind, top);
    law_dir_action_planned(local, remote, last, kind, top);
    top
}

/// Carrying out a planned creation brings every directory that called for
/// it: the directory is among those created with the action that covers it,
/// so that afterwards both sides hold it and it calls for nothing.
pub proof fn law_creation_brings_wanted_directory(
    local: TreeView,
    remote: TreeView,
    last: TreeView,
    kind: ActionKind,
    path: PathView,
) -> (top: PathView)
    requires
        kind == ActionKind::CreateLocalDir || kind == ActionKind::CreateRemoteDir,
        dir_wanted(local, remote, last, kind, path),
    ensures
        plan_of(local, remote, last).contains(ActionView { kind, path: top }),
        created_for(dir_source(kind, local, remote), top).contains(path),
        forall|in_last: bool| decide_dir(true, true, in_last) is None,
{
    let top = law_wanted_directory_is_covered(local, remote, last, kind, path);
    let source = dir_source(kind, local, remote);
    let below = source.filter(lies_below(top));
    if path == top {
        assert(seq![top][0] == path);
    } else {
        if path.len() == top.len() {
            assert(path.subrange(0, top.len() as int) =~= path);
        }
        assert(is_ancestor(top, path));
        lemma_filter_member(source, lies_below(top), path);
    }
    lemma_concat_contains(seq![top], below, path);
    top
}

/// Carrying out a planned deletion removes every directory that called for
/// it: the plan deletes the directory itself or one above it, with all
/// below, so that afterwards neither side holds it and it calls for nothing.
pub proof fn law_deletion_takes_wanted_directory(
    local: TreeView,
    remote: TreeView,
    last: TreeView,
    kind: ActionKind,
    path: PathView,
) -> (top: PathView)
    requires
        kind == ActionKind::DeleteLocalDir || kind == ActionKind::DeleteRemoteDir,
        dir_wanted(local, remote, last, kind, path),
    ensures
        plan_of(local, remote, last).contains(ActionView { kind, path: top }),
        within(path, top),
        forall|in_last: bool| decide_dir(false, false, in_last) is None,
{
    law_wanted_directory_is_covered(local, remote, last, kind, path)
}

} // verus!
