//! What the tree scanner decides: which entries count, when a recorded
//! fingerprint can stand for a file's content, when to report progress, and
//! how the entries make a snapshot.

use vstd::prelude::*;
use vstd::string::StringExecFns;
use crate::models::{
    has_file, index_of_path, put_dir, put_file, FileInfo, FileRecord, Fraction, ModifiedTime,
    SyncData, TreeView,
};
use crate::paths::{PathView, SyncPath};

verus! {

/// The name of the file that holds the snapshot of the last synchronisation,
/// directly under the mirror root.
pub open spec fn metadata_file_name() -> Seq<char> {
    ".sync_metadata"@
}

/// The name of the log file, directly under the mirror root.
pub open spec fn log_file_name() -> Seq<char> {
    ".sync_log"@
}

/// Whether `path` is where the engine keeps one of its own files.
pub open spec fn is_control_path(path: PathView) -> bool {
    path.len() == 1 && (path[0] == metadata_file_name() || path[0] == log_file_name())
}

/// The name of the file that holds the snapshot of the last synchronisation.
pub fn metadata_file() -> (name: String)
    ensures
        name@ == metadata_file_name(),
{
    String::from_str(".sync_metadata")
}

/// The name of the log file.
pub fn log_file() -> (name: String)
    ensures
        name@ == log_file_name(),
{
    String::from_str(".sync_log")
}

/// What an entry of the walk is to the scanner.
#[derive(Clone, Copy, Debug, PartialEq, Eq, Structural)]
pub enum EntryKind {
    /// Not part of the snapshot: the root itself, or one of the engine's own
    /// files.
    Ignored,
    /// A directory, recorded by its path.
    Directory,
    /// A file, recorded with its fingerprint.
    File,
}

/// How the scanner treats the entry at `path`.
pub open spec fn entry_kind_of(path: PathView, is_dir: bool) -> EntryKind {
    if path.len() == 0 {
        EntryKind::Ignored
    } else if is_dir {
        EntryKind::Directory
    } else if is_control_path(path) {
        EntryKind::Ignored
    } else {
        EntryKind::File
    }
}

/// Sorts an entry of the walk, given its path relative to the root that is
/// scanned and whether it is a directory.
pub fn entry_kind(path: &SyncPath, is_dir: bool) -> (kind: EntryKind)
    ensures
        kind == entry_kind_of(path@, is_dir),
{
    if path.depth() == 0 {
        EntryKind::Ignored
    } else if is_dir {
        EntryKind::Directory
    } else if path.depth() == 1 && (path.components[0] == metadata_file() || path.components[0]
        == log_file()) {
        EntryKind::Ignored
    } else {
        EntryKind::File
    }
}

/// The record that the last synchronisation left for a file, if it can
/// stand for the file as it is now: same path, same size, same modification
/// time. Its fingerprint is then taken over without reading the file.
pub open spec fn reusable(
    last: TreeView,
    path: PathView,
    size: u64,
    modified: ModifiedTime,
) -> Option<FileRecord> {
    match last.file(path) {
        Some(record) => if record.size == size && record.modified == modified {
            Some(record)
        } else {
            None
        },
        None => None,
    }
}

/// Looks for a record of the last synchronisation whose fingerprint still
/// holds for the file at `path` with the given size and modification time.
/// `None` means that the file has to be read and hashed.
pub fn cached_record(last: &SyncData, path: &SyncPath, size: u64, modified: ModifiedTime) -> (found:
    Option<FileInfo>)
    ensures
        match found {
            Some(info) => reusable(last@, path@, size, modified) == Some(info@),
            None => reusable(last@, path@, size, modified) is None,
        },
{
    match last.get(path) {
        Some(record) => {
            if record.size == size && record.modified == modified {
                Some(record.clone())
            } else {
                None
            }
        },
        None => None,
    }
}

/// Whether progress is reported at the entry that brings the count to
/// `processed`: at the first entry and at every tenth after it.
pub fn reports_progress(processed: usize) -> (report: bool)
    ensures
        report == (processed % 10 == 1),
{
    processed % 10 == 1
}

/// How far a scan has come after `processed` of `total` entries; a scan of
/// nothing is complete.
pub fn scan_fraction(processed: usize, total: usize) -> (fraction: Fraction)
    ensures
        fraction.wf(),
        total == 0 ==> fraction == (Fraction { done: 1, total: 1 }),
        total > 0 && processed <= total ==> fraction == (Fraction {
            done: processed as u64,
            total: total as u64,
        }),
        total > 0 && processed > total ==> fraction == (Fraction {
            done: total as u64,
            total: total as u64,
        }),
{
    if total == 0 {
        Fraction { done: 1, total: 1 }
    } else if processed <= total {
        Fraction { done: processed as u64, total: total as u64 }
    } else {
        Fraction { done: total as u64, total: total as u64 }
    }
}

/// What the scan of one entry brought.
#[derive(Debug, PartialEq, Eq)]
pub enum ScanOutcome {
    /// Nothing to record: an ignored entry.
    Nothing,
    /// A directory at this path.
    Directory(SyncPath),
    /// A file with this record.
    File(FileInfo),
    /// An entry that could not be read, with what went wrong.
    Failed(String),
}

/// The mathematical value of a [`ScanOutcome`].
pub enum OutcomeView {
    Nothing,
    Directory(PathView),
    File(FileRecord),
    Failed(Seq<char>),
}

/// Why a scan has no snapshot: an entry could not be read.
#[derive(Debug, PartialEq, Eq)]
pub struct ScanError {
    /// What went wrong at the first such entry.
    pub reason: String,
}

impl View for ScanOutcome {
    type V = OutcomeView;

    open spec fn view(&self) -> OutcomeView {
        match *self {
            ScanOutcome::Nothing => OutcomeView::Nothing,
            ScanOutcome::Directory(p) => OutcomeView::Directory(p@),
            ScanOutcome::File(f) => OutcomeView::File(f@),
            ScanOutcome::Failed(reason) => OutcomeView::Failed(reason@),
        }
    }
}

/// The values of a sequence of outcomes.
pub open spec fn outcome_views(outcomes: Seq<ScanOutcome>) -> Seq<OutcomeView> {
    Seq::new(outcomes.len(), |i: int| outcomes[i]@)
}

/// The snapshot `tree` with one more outcome entered.
pub open spec fn entered(tree: TreeView, outcome: OutcomeView) -> TreeView {
    match outcome {
        OutcomeView::Nothing => tree,
        OutcomeView::Failed(_) => tree,
        OutcomeView::Directory(path) => TreeView {
            files: tree.files,
            directories: put_dir(tree.directories, path),
        },
        OutcomeView::File(record) => TreeView {
            files: put_file(tree.files, record),
            directories: tree.directories,
        },
    }
}

/// The snapshot made of `outcomes`, entered one after the other into the
/// empty snapshot.
pub open spec fn snapshot_of(outcomes: Seq<OutcomeView>) -> TreeView
    decreases outcomes.len(),
{
    if outcomes.len() == 0 {
        TreeView { files: Seq::empty(), directories: Seq::empty() }
    } else {
        entered(snapshot_of(outcomes.drop_last()), outcomes.last())
    }
}

/// Entering an outcome keeps every path recorded once.
pub proof fn law_entering_keeps_paths_unique(tree: TreeView, outcome: OutcomeView)
    requires
        tree.wf(),
    ensures
        entered(tree, outcome).wf(),
{
    match outcome {
        OutcomeView::Nothing => {},
        OutcomeView::Failed(_) => {},
        OutcomeView::Directory(path) => {},
        OutcomeView::File(record) => {
            let files = tree.files;
            let put = put_file(files, record);
            if has_file(files, record.path) {
                let at = index_of_path(files, record.path);
                assert forall|i: int, j: int| 0 <= i < j < put.len() implies (#[trigger] put[i]).path
                    != (#[trigger] put[j]).path by {
                    assert(files[i].path != files[j].path);
                    assert(put[i].path == files[i].path);
                    assert(put[j].path == files[j].path);
                }
            } else {
                assert forall|i: int, j: int| 0 <= i < j < put.len() implies (#[trigger] put[i]).path
                    != (#[trigger] put[j]).path by {
                    if j < files.len() {
                        assert(files[i].path != files[j].path);
                    } else {
                        assert(files[i].path != record.path);
                    }
                }
            }
        },
    }
}

/// The snapshot of a scan records every path once, whatever the entries.
pub proof fn law_snapshot_paths_unique(outcomes: Seq<OutcomeView>)
    ensures
        snapshot_of(outcomes).wf(),
    decreases outcomes.len(),
{
    if outcomes.len() > 0 {
        law_snapshot_paths_unique(outcomes.drop_last());
        law_entering_keeps_paths_unique(snapshot_of(outcomes.drop_last()), outcomes.last());
    }
}

/// Whether the entry with number `at` is the first that could not be read.
pub open spec fn fails_first_at(outcomes: Seq<OutcomeView>, at: int) -> bool {
    &&& 0 <= at < outcomes.len()
    &&& outcomes[at] is Failed
    &&& forall|k: int| 0 <= k < at ==> !(#[trigger] outcomes[k] is Failed)
}

/// What went wrong at the first entry that could not be read, if there is
/// one.
pub open spec fn first_failure(outcomes: Seq<OutcomeView>) -> Option<Seq<char>> {
    if exists|at: int| fails_first_at(outcomes, at) {
        Some(outcomes[choose|at: int| fails_first_at(outcomes, at)]->Failed_0)
    } else {
        None
    }
}

/// Looks for the first entry that could not be read.
fn find_failure(outcomes: &Vec<ScanOutcome>) -> (found: Option<String>)
    ensures
        match found {
            Some(reason) => first_failure(outcome_views(outcomes@)) == Some(reason@),
            None => first_failure(outcome_views(outcomes@)) is None,
        },
{
    let ghost all = outcome_views(outcomes@);
    let mut i: usize = 0;
    while i < outcomes.len()
        invariant
            i <= outcomes.len(),
            all == outcome_views(outcomes@),
            forall|k: int| 0 <= k < i ==> !(#[trigger] all[k] is Failed),
        decreases outcomes.len() - i,
    {
        match &outcomes[i] {
            ScanOutcome::Failed(reason) => {
                proof {
                    assert(fails_first_at(all, i as int));
                    let at = choose|at: int| fails_first_at(all, at);
                    if at < i {
                        assert(!(all[at] is Failed));
                    } else if i < at {
                        assert(!(all[i as int] is Failed));
                    }
                }
                return Some(reason.clone());
            },
            _ => {},
        }
        i += 1;
    }
    proof {
        assert forall|at: int| !fails_first_at(all, at) by {
            if 0 <= at < all.len() {
                assert(!(all[at] is Failed));
            }
        }
    }
    None
}

/// Makes the snapshot of a scan from the outcomes of its entries. A scan
/// that was stopped yields no snapshot at all, never a partial one. A scan
/// in which an entry could not be read fails, with what went wrong at the
/// first such entry: no file is left out in silence.
pub fn assemble(outcomes: Vec<ScanOutcome>, stopped: bool) -> (snapshot: Result<
    Option<SyncData>,
    ScanError,
>)
    ensures
        match snapshot {
            Ok(None) => stopped,
            Err(error) => !stopped && first_failure(outcome_views(outcomes@)) == Some(
                error.reason@,
            ),
            Ok(Some(data)) => !stopped && first_failure(outcome_views(outcomes@)) is None
                && data@ == snapshot_of(outcome_views(outcomes@)),
        },
{
    if stopped {
        return Ok(None);
    }
    match find_failure(&outcomes) {
        Some(reason) => {
            return Err(ScanError { reason });
        },
        None => {},
    }
    let ghost all = outcome_views(outcomes@);
    let mut data = SyncData::new();
    let mut outcomes = outcomes;
    let mut rest: Vec<ScanOutcome> = Vec::new();
    // The outcomes are taken from the end, so turn them round first.
    while outcomes.len() > 0
        invariant
            outcomes@.len() + rest@.len() == all.len(),
            forall|k: int| 0 <= k < outcomes@.len() ==> (#[trigger] outcomes@[k])@ == all[k],
            forall|k: int|
                0 <= k < rest@.len() ==> (#[trigger] rest@[k])@ == all[all.len() - 1 - k],
        decreases outcomes.len(),
    {
        let last = outcomes.pop().unwrap();
        rest.push(last);
    }
    let ghost n = all.len();
    assert(all.take(0) =~= Seq::<OutcomeView>::empty());
    assert(data@ =~= snapshot_of(all.take(0)));
    while rest.len() > 0
        invariant
            rest@.len() <= n,
            n == all.len(),
            forall|k: int| 0 <= k < rest@.len() ==> (#[trigger] rest@[k])@ == all[n - 1 - k],
            data@ == snapshot_of(all.take(n - rest@.len())),
        decreases rest.len(),
    {
        let ghost at = n - rest@.len();
        let ghost before = data@;
        let next = rest.pop().unwrap();
        proof {
            assert(next@ == all[at]);
            assert(all.take(at + 1).drop_last() =~= all.take(at));
            assert(all.take(at + 1).last() == all[at]);
        }
        match next {
            ScanOutcome::Nothing => {},
            ScanOutcome::Failed(_) => {},
            ScanOutcome::Directory(path) => {
                data.insert_directory(path);
            },
            ScanOutcome::File(info) => {
                data.insert_file(info);
            },
        }
        assert(data@ =~= entered(before, all[at]));
    }
    assert(all.take(n as int) =~= all);
    Ok(Some(data))
}

} // verus!
