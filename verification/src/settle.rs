//! From a completed run to the next: what carrying out a plan leaves on the
//! two sides, and that the run after it has nothing to do.

use vstd::prelude::*;
use crate::executor::{created_for, done_note, lies_below, Note};
use crate::laws::{
    after_action, dir_wanted, law_creation_brings_wanted_directory, law_dir_action_planned,
    law_nothing_wanted_plans_nothing, law_wanted_directory_is_covered,
};
use crate::models::{ActionKind, ActionView, Side, TreeView};
use crate::paths::{is_ancestor, within, PathView};
use crate::planner::{decide_dir, decide_file, plan_of};
use crate::seq_facts::{lemma_concat_contains, lemma_filter_member};

verus! {

/// A tree as a scan finds it: the root is no entry, and every directory
/// above a file or a directory of the tree is in the tree.
pub open spec fn closed(tree: TreeView) -> bool {
    &&& forall|d: PathView| #[trigger] tree.has_dir(d) ==> d.len() > 0
    &&& forall|d: PathView, a: PathView|
        #![trigger tree.has_dir(d), is_ancestor(a, d)]
        tree.has_dir(d) && is_ancestor(a, d) && a.len() > 0 ==> tree.has_dir(a)
    &&& forall|p: PathView, a: PathView|
        #![trigger tree.hash(p), is_ancestor(a, p)]
        tree.hash(p) is Some && is_ancestor(a, p) && a.len() > 0 ==> tree.has_dir(a)
}

/// The tree of the given side.
pub open spec fn tree_of(side: Side, local: TreeView, remote: TreeView) -> TreeView {
    if side == Side::Local {
        local
    } else {
        remote
    }
}

/// The other side.
pub open spec fn across(side: Side) -> Side {
    if side == Side::Local {
        Side::Remote
    } else {
        Side::Local
    }
}

/// The kind of action that creates a directory on the given side.
pub open spec fn creation_on(side: Side) -> ActionKind {
    if side == Side::Local {
        ActionKind::CreateLocalDir
    } else {
        ActionKind::CreateRemoteDir
    }
}

/// The kind of action that deletes a directory on the given side.
pub open spec fn deletion_on(side: Side) -> ActionKind {
    if side == Side::Local {
        ActionKind::DeleteLocalDir
    } else {
        ActionKind::DeleteRemoteDir
    }
}

/// The kind of action that copies a file over to the given side.
pub open spec fn copy_onto(side: Side) -> ActionKind {
    if side == Side::Local {
        ActionKind::RemoteToLocal
    } else {
        ActionKind::LocalToRemote
    }
}

/// What becomes of a file action in a run in which the caller confirms
/// every deletion and settles every conflict for the side `kept`.
pub open spec fn note_of(kind: ActionKind, kept: Side) -> Note {
    if kind == ActionKind::Conflict {
        if kept == Side::Local {
            Note::KeptLocal
        } else {
            Note::KeptRemote
        }
    } else {
        done_note(kind)
    }
}

/// Whether the run writes the file at `path` on the given side: by a copy
/// onto that side, or by a conflict settled for the other side.
pub open spec fn lands(
    local: TreeView,
    remote: TreeView,
    last: TreeView,
    keep: spec_fn(PathView) -> Side,
    side: Side,
    path: PathView,
) -> bool {
    let decision = decide_file(local.hash(path), remote.hash(path), last.hash(path));
    decision == Some(copy_onto(side)) || (decision == Some(ActionKind::Conflict) && keep(path)
        == across(side))
}

/// Whether the run deletes, on the given side, a directory that holds
/// `path` or is `path`.
pub open spec fn gone(
    local: TreeView,
    remote: TreeView,
    last: TreeView,
    side: Side,
    path: PathView,
) -> bool {
    exists|top: PathView|
        within(path, top) && #[trigger] plan_of(local, remote, last).contains(
            ActionView { kind: deletion_on(side), path: top },
        )
}

/// Whether a planned creation on the given side makes the directory
/// `path`: as the created directory or one that the other tree holds below
/// it, or as a directory above it.
pub open spec fn made_by_creation(
    local: TreeView,
    remote: TreeView,
    last: TreeView,
    side: Side,
    path: PathView,
) -> bool {
    exists|top: PathView|
        #[trigger] plan_of(local, remote, last).contains(
            ActionView { kind: creation_on(side), path: top },
        ) && (created_for(tree_of(across(side), local, remote).directories, top).contains(path)
            || (is_ancestor(path, top) && path.len() > 0))
}

/// Whether a file that the run writes on the given side makes the
/// directory `path`, as one of the directories above the file.
pub open spec fn made_by_copy(
    local: TreeView,
    remote: TreeView,
    last: TreeView,
    keep: spec_fn(PathView) -> Side,
    side: Side,
    path: PathView,
) -> bool {
    exists|file: PathView| #[trigger]
        lands(local, remote, last, keep, side, file) && is_ancestor(path, file) && path.len() > 0
}

/// Whether the given side holds the directory `path` after the run: it was
/// there or the run made it, and the run did not delete it. Deletions come
/// last in a plan.
pub open spec fn dir_after(
    local: TreeView,
    remote: TreeView,
    last: TreeView,
    keep: spec_fn(PathView) -> Side,
    side: Side,
    path: PathView,
) -> bool {
    (tree_of(side, local, remote).has_dir(path) || made_by_creation(
        local,
        remote,
        last,
        side,
        path,
    ) || made_by_copy(local, remote, last, keep, side, path)) && !gone(
        local,
        remote,
        last,
        side,
        path,
    )
}

/// The fingerprints of the file at `path` on the two sides after its own
/// action, apart from what the deletion of a directory takes along.
pub open spec fn settled(
    local: TreeView,
    remote: TreeView,
    last: TreeView,
    keep: spec_fn(PathView) -> Side,
    path: PathView,
) -> (Option<Seq<char>>, Option<Seq<char>>) {
    match decide_file(local.hash(path), remote.hash(path), last.hash(path)) {
        Some(kind) => after_action(
            note_of(kind, keep(path)),
            local.hash(path),
            remote.hash(path),
        ),
        None => (local.hash(path), remote.hash(path)),
    }
}

/// The fingerprint of the file at `path` on the given side after the run;
/// none where the run deleted a directory above it on that side.
pub open spec fn file_after(
    local: TreeView,
    remote: TreeView,
    last: TreeView,
    keep: spec_fn(PathView) -> Side,
    side: Side,
    path: PathView,
) -> Option<Seq<char>> {
    if exists|top: PathView|
        is_ancestor(top, path) && #[trigger] plan_of(local, remote, last).contains(
            ActionView { kind: deletion_on(side), path: top },
        ) {
        None
    } else if side == Side::Local {
        settled(local, remote, last, keep, path).0
    } else {
        settled(local, remote, last, keep, path).1
    }
}

/// Nothing new lies below a directory that is to be deleted: where one side
/// has lost a directory since the last synchronisation, all that the other
/// side holds below it was there at the last synchronisation.
pub open spec fn nothing_new_below_deleted(local: TreeView, remote: TreeView, last: TreeView) -> bool {
    forall|side: Side, top: PathView, below: PathView|
        #![trigger dir_wanted(local, remote, last, deletion_on(side), top), is_ancestor(top, below)]
        dir_wanted(local, remote, last, deletion_on(side), top) && is_ancestor(top, below) ==> (
        tree_of(side, local, remote).has_dir(below) ==> last.has_dir(below)) && (tree_of(
            side,
            local,
            remote,
        ).hash(below) is Some ==> last.hash(below) is Some)
}

/// Where a directory of a closed tree lies within `top`, the tree holds
/// `top` as well.
proof fn lemma_closed_holds_above(tree: TreeView, path: PathView, top: PathView)
    requires
        closed(tree),
        tree.has_dir(path),
        within(path, top),
        top.len() > 0,
    ensures
        tree.has_dir(top),
{
    if path.len() == top.len() {
        assert(path.subrange(0, top.len() as int) =~= path);
    } else {
        assert(is_ancestor(top, path));
    }
}

/// A directory that the run deletes on a side, with all within it, is one
/// that this side holds, the other side lacks and the last synchronisation
/// recorded.
proof fn lemma_gone_has_a_cause(
    local: TreeView,
    remote: TreeView,
    last: TreeView,
    side: Side,
    path: PathView,
) -> (top: PathView)
    requires
        closed(local),
        closed(remote),
        gone(local, remote, last, side, path),
    ensures
        within(path, top),
        top.len() > 0,
        dir_wanted(local, remote, last, deletion_on(side), top),
        tree_of(side, local, remote).has_dir(top),
        !tree_of(across(side), local, remote).has_dir(top),
        last.has_dir(top),
{
    let top = choose|top: PathView|
        within(path, top) && #[trigger] plan_of(local, remote, last).contains(
            ActionView { kind: deletion_on(side), path: top },
        );
    law_dir_action_planned(local, remote, last, deletion_on(side), top);
    top
}

/// Whether both sides are to hold the directory `path` after a run: one
/// side holds it, and it is not one that a side has lost since the last
/// synchronisation.
pub open spec fn dir_stays(local: TreeView, remote: TreeView, last: TreeView, path: PathView) -> bool {
    let l = local.has_dir(path);
    let r = remote.has_dir(path);
    (l || r) && !((l != r) && last.has_dir(path))
}

proof fn lemma_dir_settles(
    local: TreeView,
    remote: TreeView,
    last: TreeView,
    keep: spec_fn(PathView) -> Side,
    side: Side,
    path: PathView,
)
    requires
        closed(local),
        closed(remote),
        closed(last),
        nothing_new_below_deleted(local, remote, last),
    ensures
        dir_after(local, remote, last, keep, side, path) == dir_stays(local, remote, last, path),
{
    let own = tree_of(side, local, remote);
    let other = tree_of(across(side), local, remote);
    if gone(local, remote, last, side, path) {
        let top = lemma_gone_has_a_cause(local, remote, last, side, path);
        if other.has_dir(path) {
            lemma_closed_holds_above(other, path, top);
        }
        if own.has_dir(path) && path != top {
            if path.len() == top.len() {
                assert(path.subrange(0, top.len() as int) =~= path);
            }
            assert(is_ancestor(top, path));
            assert(last.has_dir(path));
        }
    } else if own.has_dir(path) {
        if !other.has_dir(path) && last.has_dir(path) {
            let top = law_wanted_directory_is_covered(
                local,
                remote,
                last,
                deletion_on(side),
                path,
            );
            assert(gone(local, remote, last, side, path));
        }
    } else {
        if other.has_dir(path) && !last.has_dir(path) {
            let top = law_creation_brings_wanted_directory(
                local,
                remote,
                last,
                creation_on(side),
                path,
            );
            assert(made_by_creation(local, remote, last, side, path));
        }
        if made_by_creation(local, remote, last, side, path) {
            let top = choose|top: PathView|
                #[trigger] plan_of(local, remote, last).contains(
                    ActionView { kind: creation_on(side), path: top },
                ) && (created_for(other.directories, top).contains(path) || (is_ancestor(
                    path,
                    top,
                ) && path.len() > 0));
            law_dir_action_planned(local, remote, last, creation_on(side), top);
            assert(other.has_dir(top) && !own.has_dir(top) && !last.has_dir(top));
            assert(top.len() > 0);
            if created_for(other.directories, top).contains(path) {
                let below = other.directories.filter(lies_below(top));
                lemma_concat_contains(seq![top], below, path);
                if below.contains(path) {
                    lemma_filter_member(
                        other.directories,
                        lies_below(top),
                        path,
                    );
                    assert(is_ancestor(top, path));
                    if last.has_dir(path) {
                        assert(last.has_dir(top));
                    }
                } else {
                    assert(seq![top].contains(path));
                    assert(path == top);
                }
            } else {
                assert(is_ancestor(path, top));
                assert(other.has_dir(path));
                if last.has_dir(path) {
                    assert(dir_wanted(local, remote, last, deletion_on(across(side)), path));
                    assert(tree_of(across(side), local, remote).has_dir(top));
                    assert(last.has_dir(top));
                }
            }
        }
        if made_by_copy(local, remote, last, keep, side, path) {
            let file = choose|file: PathView| #[trigger]
                lands(local, remote, last, keep, side, file) && is_ancestor(path, file)
                    && path.len() > 0;
            assert(other.hash(file) is Some);
            assert(other.has_dir(path));
            if last.has_dir(path) {
                assert(dir_wanted(local, remote, last, deletion_on(across(side)), path));
                assert(tree_of(across(side), local, remote).hash(file) is Some);
                assert(last.hash(file) is Some);
                if own.hash(file) is Some {
                    assert(own.has_dir(path));
                }
            }
        }
    }
}

proof fn lemma_file_settles(
    local: TreeView,
    remote: TreeView,
    last: TreeView,
    keep: spec_fn(PathView) -> Side,
    path: PathView,
)
    requires
        closed(local),
        closed(remote),
        closed(last),
        nothing_new_below_deleted(local, remote, last),
    ensures
        file_after(local, remote, last, keep, Side::Local, path) == file_after(
            local,
            remote,
            last,
            keep,
            Side::Remote,
            path,
        ),
{
    let both = settled(local, remote, last, keep, path);
    assert(both.0 == both.1);
    lemma_file_below_deleted(local, remote, last, keep, Side::Local, path);
    lemma_file_below_deleted(local, remote, last, keep, Side::Remote, path);
}

/// A file below a directory that the run deletes on one side is, after its
/// own action, on neither side.
proof fn lemma_file_below_deleted(
    local: TreeView,
    remote: TreeView,
    last: TreeView,
    keep: spec_fn(PathView) -> Side,
    side: Side,
    path: PathView,
)
    requires
        closed(local),
        closed(remote),
        closed(last),
        nothing_new_below_deleted(local, remote, last),
    ensures
        (exists|top: PathView|
            is_ancestor(top, path) && #[trigger] plan_of(local, remote, last).contains(
                ActionView { kind: deletion_on(side), path: top },
            )) ==> settled(local, remote, last, keep, path) == (
            None::<Seq<char>>,
            None::<Seq<char>>,
        ),
{
    if exists|top: PathView|
        is_ancestor(top, path) && #[trigger] plan_of(local, remote, last).contains(
            ActionView { kind: deletion_on(side), path: top },
        ) {
        let top = choose|top: PathView|
            is_ancestor(top, path) && #[trigger] plan_of(local, remote, last).contains(
                ActionView { kind: deletion_on(side), path: top },
            );
        law_dir_action_planned(local, remote, last, deletion_on(side), top);
        let own = tree_of(side, local, remote);
        let other = tree_of(across(side), local, remote);
        assert(own.has_dir(top) && !other.has_dir(top) && last.has_dir(top));
        assert(top.len() > 0);
        if other.hash(path) is Some {
            assert(other.has_dir(top));
        }
        if own.hash(path) is Some {
            assert(last.hash(path) is Some);
        }
    }
}

/// After a run that was carried out to its end, with every deletion
/// confirmed and every conflict settled for one side, the next run has
/// nothing to do: where the two trees are as the run left them and the
/// baseline is the local tree, the plan is empty. This holds of trees as a
/// scan finds them, and where nothing new lies below a directory that is to
/// be deleted.
pub proof fn law_completed_run_settles(
    local: TreeView,
    remote: TreeView,
    last: TreeView,
    keep: spec_fn(PathView) -> Side,
    local_after: TreeView,
    remote_after: TreeView,
)
    requires
        closed(local),
        closed(remote),
        closed(last),
        nothing_new_below_deleted(local, remote, last),
        local_after.wf(),
        remote_after.wf(),
        forall|path: PathView| #[trigger]
            local_after.hash(path) == file_after(local, remote, last, keep, Side::Local, path),
        forall|path: PathView| #[trigger]
            remote_after.hash(path) == file_after(local, remote, last, keep, Side::Remote, path),
        forall|path: PathView| #[trigger]
            local_after.has_dir(path) == dir_after(local, remote, last, keep, Side::Local, path),
        forall|path: PathView| #[trigger]
            remote_after.has_dir(path) == dir_after(
                local,
                remote,
                last,
                keep,
                Side::Remote,
                path,
            ),
    ensures
        plan_of(local_after, remote_after, local_after) == Seq::<ActionView>::empty(),
{
    assert forall|path: PathView| #[trigger]
        decide_file(
            local_after.hash(path),
            remote_after.hash(path),
            local_after.hash(path),
        ) is None by {
        lemma_file_settles(local, remote, last, keep, path);
        assert(local_after.hash(path) == remote_after.hash(path));
    }
    assert forall|path: PathView| #[trigger]
        decide_dir(
            local_after.has_dir(path),
            remote_after.has_dir(path),
            local_after.has_dir(path),
        ) is None by {
        lemma_dir_settles(local, remote, last, keep, Side::Local, path);
        lemma_dir_settles(local, remote, last, keep, Side::Remote, path);
        assert(local_after.has_dir(path) == remote_after.has_dir(path));
    }
    law_nothing_wanted_plans_nothing(local_after, remote_after, local_after);
}

} // verus!
