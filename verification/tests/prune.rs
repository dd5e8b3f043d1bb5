use syncu::paths::SyncPath;
use syncu::prune::{prune_ancestor_paths, prune_descendant_paths};

fn p(parts: &[&str]) -> SyncPath {
    SyncPath::new(parts.iter().map(|s| s.to_string()).collect())
}

#[test]
fn creation_set_keeps_its_topmost() {
    let paths = vec![p(&["a"]), p(&["a", "b"])];
    assert_eq!(prune_ancestor_paths(&paths), vec![p(&["a"])]);
    let paths = vec![p(&["a", "b", "c"]), p(&["x", "y"]), p(&["a", "b"]), p(&["x"])];
    assert_eq!(prune_ancestor_paths(&paths), vec![p(&["a", "b"]), p(&["x"])]);
}

#[test]
fn pruning_descendants_keeps_the_topmost() {
    let paths = vec![p(&["a"]), p(&["a", "b"])];
    assert_eq!(prune_descendant_paths(&paths), vec![p(&["a"])]);
}

#[test]
fn pruning_compares_whole_components() {
    // "ab" does not lie below "a".
    let paths = vec![p(&["a"]), p(&["ab"]), p(&["a", "b", "c"]), p(&["ab", "c"])];
    assert_eq!(prune_descendant_paths(&paths), vec![p(&["a"]), p(&["ab"])]);
    assert_eq!(prune_ancestor_paths(&paths), vec![p(&["a"]), p(&["ab"])]);
}

#[test]
fn pruning_nothing_gives_nothing() {
    let none: Vec<SyncPath> = vec![];
    assert_eq!(prune_descendant_paths(&none), vec![]);
    assert_eq!(prune_ancestor_paths(&none), vec![]);
}

#[test]
fn unrelated_paths_all_stay_in_their_order() {
    let paths = vec![p(&["z"]), p(&["b", "c"]), p(&["a"])];
    assert_eq!(prune_descendant_paths(&paths), paths);
    assert_eq!(prune_ancestor_paths(&paths), paths);
}

#[test]
fn path_relations() {
    assert!(p(&["a", "b"]).starts_with(&p(&["a"])));
    assert!(p(&["a", "b"]).starts_with(&p(&["a", "b"])));
    assert!(p(&["a", "b"]).starts_with(&p(&[])));
    assert!(!p(&["a"]).starts_with(&p(&["a", "b"])));
    assert!(!p(&["ab"]).starts_with(&p(&["a"])));
    assert!(p(&["a", "b"]).same_as(&p(&["a", "b"])));
    assert!(!p(&["a", "b"]).same_as(&p(&["a"])));
    assert!(!p(&["a", "b"]).same_as(&p(&["a", "c"])));
    assert_eq!(p(&["a", "b", "c"]).depth(), 3);
    assert_eq!(p(&[]).depth(), 0);
    assert_eq!(p(&["a", "b"]).clone(), p(&["a", "b"]));
}
