//! Pruning of directory sets to the paths that stand for a whole subtree.

use vstd::prelude::*;
use crate::models::path_views;
use crate::paths::{is_ancestor, within, PathView, SyncPath};
use crate::seq_facts::lemma_filter_member;

verus! {

/// Whether some path of `paths` lies strictly above `path`.
pub open spec fn has_ancestor_in(paths: Seq<PathView>, path: PathView) -> bool {
    exists|i: int| 0 <= i < paths.len() && is_ancestor(#[trigger] paths[i], path)
}

/// The test that keeps the paths with no ancestor among `paths`.
pub open spec fn topmost_in(paths: Seq<PathView>) -> spec_fn(PathView) -> bool {
    |path: PathView| !has_ancestor_in(paths, path)
}

/// `paths` without those that lie below another of them, in their order.
pub open spec fn without_descendants(paths: Seq<PathView>) -> Seq<PathView> {
    paths.filter(topmost_in(paths))
}

/// Whether one of `paths` lies strictly above `path`.
pub fn below_any(paths: &Vec<SyncPath>, path: &SyncPath) -> (below: bool)
    ensures
        below == has_ancestor_in(path_views(paths@), path@),
{
    let mut j: usize = 0;
    while j < paths.len()
        invariant
            j <= paths.len(),
            forall|k: int| 0 <= k < j ==> !is_ancestor(#[trigger] path_views(paths@)[k], path@),
        decreases paths.len() - j,
    {
        if paths[j].depth() < path.depth() && path.starts_with(&paths[j]) {
            assert(is_ancestor(path_views(paths@)[j as int], path@));
            return true;
        }
        j += 1;
    }
    false
}

/// Prunes a set of directories that are to be deleted: removes every path
/// that has an ancestor in the set. Of `a` and `a/b`, `a` stays, and its
/// deletion takes all below it along.
pub fn prune_descendant_paths(paths: &Vec<SyncPath>) -> (pruned: Vec<SyncPath>)
    ensures
        path_views(pruned@) == without_descendants(path_views(paths@)),
{
    let ghost all = path_views(paths@);
    let mut pruned: Vec<SyncPath> = Vec::new();
    let mut i: usize = 0;
    assert(all.take(0) =~= Seq::<PathView>::empty());
    assert(path_views(pruned@) =~= Seq::<PathView>::empty());
    while i < paths.len()
        invariant
            i <= paths.len(),
            all == path_views(paths@),
            path_views(pruned@) == all.take(i as int).filter(topmost_in(all)),
        decreases paths.len() - i,
    {
        let ghost before = path_views(pruned@);
        proof {
            all.lemma_take_succ_push(i as int);
            all.take(i as int).lemma_filter_push(all[i as int], topmost_in(all));
        }
        if !below_any(paths, &paths[i]) {
            pruned.push(paths[i].clone());
            assert(path_views(pruned@) =~= before.push(all[i as int]));
        }
        i += 1;
    }
    assert(all.take(paths.len() as int) =~= all);
    pruned
}

/// Prunes a set of directories that are to be created to the ancestors
/// among them: of `a` and `a/b`, `a` stays, and stands for all that is to be
/// created below it.
pub fn prune_ancestor_paths(paths: &Vec<SyncPath>) -> (pruned: Vec<SyncPath>)
    ensures
        path_views(pruned@) == without_descendants(path_views(paths@)),
{
    prune_descendant_paths(paths)
}

/// What stays after the descendants are removed: no path that stays lies
/// below another that stays.
pub proof fn law_pruned_paths_do_not_nest(paths: Seq<PathView>, above: PathView, below: PathView)
    requires
        without_descendants(paths).contains(above),
        without_descendants(paths).contains(below),
    ensures
        !is_ancestor(above, below),
{
    lemma_filter_member(paths, topmost_in(paths), above);
    lemma_filter_member(paths, topmost_in(paths), below);
    if is_ancestor(above, below) {
        let i = choose|i: int| 0 <= i < paths.len() && paths[i] == above;
        assert(is_ancestor(paths[i], below));
    }
}

/// Removing the descendants loses no subtree: each path stays itself or has
/// an ancestor that stays.
pub proof fn law_pruned_paths_cover(paths: Seq<PathView>, path: PathView)
    requires
        paths.contains(path),
    ensures
        exists|i: int|
            0 <= i < without_descendants(paths).len() && within(
                path,
                #[trigger] without_descendants(paths)[i],
            ),
    decreases path.len(),
{
    let kept = without_descendants(paths);
    lemma_filter_member(paths, topmost_in(paths), path);
    if has_ancestor_in(paths, path) {
        let k = choose|k: int| 0 <= k < paths.len() && is_ancestor(#[trigger] paths[k], path);
        let above = paths[k];
        law_pruned_paths_cover(paths, above);
        let i = choose|i: int| 0 <= i < kept.len() && within(above, #[trigger] kept[i]);
        assert(path.subrange(0, kept[i].len() as int) =~= above.subrange(0, kept[i].len() as int));
        assert(within(path, kept[i]));
    } else {
        let i = choose|i: int| 0 <= i < kept.len() && kept[i] == path;
        assert(path.subrange(0, path.len() as int) =~= path);
        assert(within(path, kept[i]));
    }
}

} // verus!
