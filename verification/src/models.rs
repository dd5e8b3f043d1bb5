//! The data the engine works on: file records, tree snapshots, planned
//! actions, and the messages exchanged with the caller.

use vstd::prelude::*;
use crate::paths::{PathView, SyncPath};

verus! {

/// The caller's answer to a conflict.
#[derive(Clone, Copy, Debug, PartialEq, Eq, Structural)]
pub enum Resolution {
    KeepLocal,
    KeepRemote,
    Skip,
}

/// The colour scheme of the presentation layer.
#[derive(Clone, Copy, Debug, PartialEq, Eq, Structural)]
pub enum Theme {
    Light,
    Dark,
}

/// One of the two trees that are kept in agreement.
#[derive(Clone, Copy, Debug, PartialEq, Eq, Structural)]
pub enum Side {
    Local,
    Remote,
}

/// A last-modified instant, as whole seconds since the Unix epoch and the
/// nanoseconds within that second.
#[derive(Clone, Copy, Debug, PartialEq, Eq, Structural)]
pub struct ModifiedTime {
    pub secs: u64,
    pub nanos: u32,
}

/// A part of a whole, for a progress bar: `done <= total` and `total > 0`.
#[derive(Clone, Copy, Debug, PartialEq, Eq, Structural)]
pub struct Fraction {
    pub done: u64,
    pub total: u64,
}

impl Fraction {
    /// The fraction lies between 0 and 1.
    pub open spec fn wf(self) -> bool {
        self.done <= self.total && self.total > 0
    }
}

/// What is recorded of one file: where it is, a fingerprint of its content,
/// when it was last modified and how long it is.
#[derive(Debug, PartialEq, Eq)]
pub struct FileInfo {
    pub path: SyncPath,
    pub hash: String,
    pub modified: ModifiedTime,
    pub size: u64,
}

/// The mathematical value of a [`FileInfo`].
pub struct FileRecord {
    pub path: PathView,
    pub hash: Seq<char>,
    pub modified: ModifiedTime,
    pub size: u64,
}

impl View for FileInfo {
    type V = FileRecord;

    open spec fn view(&self) -> FileRecord {
        FileRecord { path: self.path@, hash: self.hash@, modified: self.modified, size: self.size }
    }
}

impl Clone for FileInfo {
    fn clone(&self) -> (copy: Self)
        ensures
            copy@ == self@,
    {
        FileInfo {
            path: self.path.clone(),
            hash: self.hash.clone(),
            modified: self.modified,
            size: self.size,
        }
    }
}

/// The records of a sequence of files.
pub open spec fn records(files: Seq<FileInfo>) -> Seq<FileRecord> {
    Seq::new(files.len(), |i: int| files[i]@)
}

/// The values of a sequence of paths.
pub open spec fn path_views(paths: Seq<SyncPath>) -> Seq<PathView> {
    Seq::new(paths.len(), |i: int| paths[i]@)
}

/// Whether some record of `files` lies at `path`.
pub open spec fn has_file(files: Seq<FileRecord>, path: PathView) -> bool {
    exists|i: int| 0 <= i < files.len() && (#[trigger] files[i]).path == path
}

/// An index at which a record of `files` lies at `path`; where the paths of
/// `files` are distinct, the only one.
pub open spec fn index_of_path(files: Seq<FileRecord>, path: PathView) -> int {
    choose|i: int| 0 <= i < files.len() && (#[trigger] files[i]).path == path
}

/// The record of `files` that lies at `path`, if there is one.
pub open spec fn find_file(files: Seq<FileRecord>, path: PathView) -> Option<FileRecord> {
    if has_file(files, path) {
        Some(files[index_of_path(files, path)])
    } else {
        None
    }
}

/// `files` with `record` put at its path: in place of the record that lay
/// there, or at the end.
pub open spec fn put_file(files: Seq<FileRecord>, record: FileRecord) -> Seq<FileRecord> {
    if has_file(files, record.path) {
        files.update(index_of_path(files, record.path), record)
    } else {
        files.push(record)
    }
}

/// `directories` with `path` entered, at the end if it was not there.
pub open spec fn put_dir(directories: Seq<PathView>, path: PathView) -> Seq<PathView> {
    if directories.contains(path) {
        directories
    } else {
        directories.push(path)
    }
}

/// No two records lie at the same path.
pub open spec fn distinct_files(files: Seq<FileRecord>) -> bool {
    forall|i: int, j: int|
        0 <= i < j < files.len() ==> (#[trigger] files[i]).path != (#[trigger] files[j]).path
}

/// The mathematical value of a [`SyncData`]: the file records and the
/// directory paths, each in the order in which they were entered.
pub struct TreeView {
    pub files: Seq<FileRecord>,
    pub directories: Seq<PathView>,
}

impl TreeView {
    /// Each file path occurs once, and so does each directory path.
    pub open spec fn wf(self) -> bool {
        distinct_files(self.files) && self.directories.no_duplicates()
    }

    /// The record at `path`, if the tree holds a file there.
    pub open spec fn file(self, path: PathView) -> Option<FileRecord> {
        find_file(self.files, path)
    }

    /// The fingerprint of the file at `path`, if the tree holds a file there.
    pub open spec fn hash(self, path: PathView) -> Option<Seq<char>> {
        match find_file(self.files, path) {
            Some(record) => Some(record.hash),
            None => None,
        }
    }

    /// Whether the tree holds a directory at `path`.
    pub open spec fn has_dir(self, path: PathView) -> bool {
        self.directories.contains(path)
    }
}

/// What a planned action does, apart from where.
#[derive(Clone, Copy, Debug, PartialEq, Eq, Structural)]
pub enum ActionKind {
    /// Copy the local file over to the remote tree.
    LocalToRemote,
    /// Copy the remote file over to the local tree.
    RemoteToLocal,
    /// Delete the local file: it was deleted on the remote side.
    DeleteLocal,
    /// Delete the remote file: it was deleted on the local side.
    DeleteRemote,
    /// Create the directory in the local tree.
    CreateLocalDir,
    /// Create the directory in the remote tree.
    CreateRemoteDir,
    /// Delete the local directory and all below it.
    DeleteLocalDir,
    /// Delete the remote directory and all below it.
    DeleteRemoteDir,
    /// Both sides changed the file, and differently: ask.
    Conflict,
}

/// The mathematical value of a [`SyncAction`].
pub struct ActionView {
    pub kind: ActionKind,
    pub path: PathView,
}

/// One step of a synchronisation plan.
#[derive(Debug, PartialEq, Eq)]
pub enum SyncAction {
    LocalToRemote(SyncPath),
    RemoteToLocal(SyncPath),
    DeleteLocal(SyncPath),
    DeleteRemote(SyncPath),
    CreateLocalDir(SyncPath),
    CreateRemoteDir(SyncPath),
    DeleteLocalDir(SyncPath),
    DeleteRemoteDir(SyncPath),
    Conflict { path: SyncPath },
}

impl View for SyncAction {
    type V = ActionView;

    open spec fn view(&self) -> ActionView {
        match *self {
            SyncAction::LocalToRemote(p) => ActionView { kind: ActionKind::LocalToRemote, path: p@ },
            SyncAction::RemoteToLocal(p) => ActionView { kind: ActionKind::RemoteToLocal, path: p@ },
            SyncAction::DeleteLocal(p) => ActionView { kind: ActionKind::DeleteLocal, path: p@ },
            SyncAction::DeleteRemote(p) => ActionView { kind: ActionKind::DeleteRemote, path: p@ },
            SyncAction::CreateLocalDir(p) => ActionView {
                kind: ActionKind::CreateLocalDir,
                path: p@,
            },
            SyncAction::CreateRemoteDir(p) => ActionView {
                kind: ActionKind::CreateRemoteDir,
                path: p@,
            },
            SyncAction::DeleteLocalDir(p) => ActionView {
                kind: ActionKind::DeleteLocalDir,
                path: p@,
            },
            SyncAction::DeleteRemoteDir(p) => ActionView {
                kind: ActionKind::DeleteRemoteDir,
                path: p@,
            },
            SyncAction::Conflict { path } => ActionView { kind: ActionKind::Conflict, path: path@ },
        }
    }
}

impl SyncAction {
    /// The action of the given kind at `path`.
    pub fn new(kind: ActionKind, path: SyncPath) -> (action: Self)
        ensures
            action@ == (ActionView { kind, path: path@ }),
    {
        match kind {
            ActionKind::LocalToRemote => SyncAction::LocalToRemote(path),
            ActionKind::RemoteToLocal => SyncAction::RemoteToLocal(path),
            ActionKind::DeleteLocal => SyncAction::DeleteLocal(path),
            ActionKind::DeleteRemote => SyncAction::DeleteRemote(path),
            ActionKind::CreateLocalDir => SyncAction::CreateLocalDir(path),
            ActionKind::CreateRemoteDir => SyncAction::CreateRemoteDir(path),
            ActionKind::DeleteLocalDir => SyncAction::DeleteLocalDir(path),
            ActionKind::DeleteRemoteDir => SyncAction::DeleteRemoteDir(path),
            ActionKind::Conflict => SyncAction::Conflict { path },
        }
    }

    /// What the action does.
    pub fn kind(&self) -> (kind: ActionKind)
        ensures
            kind == self@.kind,
    {
        match self {
            SyncAction::LocalToRemote(_) => ActionKind::LocalToRemote,
            SyncAction::RemoteToLocal(_) => ActionKind::RemoteToLocal,
            SyncAction::DeleteLocal(_) => ActionKind::DeleteLocal,
            SyncAction::DeleteRemote(_) => ActionKind::DeleteRemote,
            SyncAction::CreateLocalDir(_) => ActionKind::CreateLocalDir,
            SyncAction::CreateRemoteDir(_) => ActionKind::CreateRemoteDir,
            SyncAction::DeleteLocalDir(_) => ActionKind::DeleteLocalDir,
            SyncAction::DeleteRemoteDir(_) => ActionKind::DeleteRemoteDir,
            SyncAction::Conflict { .. } => ActionKind::Conflict,
        }
    }

    /// Where the action applies, relative to the tree roots.
    pub fn path(&self) -> (path: &SyncPath)
        ensures
            path@ == self@.path,
    {
        match self {
            SyncAction::LocalToRemote(p) => p,
            SyncAction::RemoteToLocal(p) => p,
            SyncAction::DeleteLocal(p) => p,
            SyncAction::DeleteRemote(p) => p,
            SyncAction::CreateLocalDir(p) => p,
            SyncAction::CreateRemoteDir(p) => p,
            SyncAction::DeleteLocalDir(p) => p,
            SyncAction::DeleteRemoteDir(p) => p,
            SyncAction::Conflict { path } => path,
        }
    }
}

impl Clone for SyncAction {
    fn clone(&self) -> (copy: Self)
        ensures
            copy@ == self@,
    {
        SyncAction::new(self.kind(), self.path().clone())
    }
}

/// The values of a sequence of actions.
pub open spec fn action_views(actions: Seq<SyncAction>) -> Seq<ActionView> {
    Seq::new(actions.len(), |i: int| actions[i]@)
}

/// A snapshot of one tree: a record for each file, keyed by its relative
/// path, and the relative paths of the directories.
#[derive(Debug, PartialEq, Eq)]
pub struct SyncData {
    files: Vec<FileInfo>,
    directories: Vec<SyncPath>,
}

impl View for SyncData {
    type V = TreeView;

    closed spec fn view(&self) -> TreeView {
        TreeView { files: records(self.files@), directories: path_views(self.directories@) }
    }
}

impl Default for SyncData {
    fn default() -> (data: Self)
        ensures
            data@.files == Seq::<FileRecord>::empty(),
            data@.directories == Seq::<PathView>::empty(),
    {
        SyncData::new()
    }
}

/// Among distinct paths, a record is found at its own index.
pub proof fn lemma_find_file_at(files: Seq<FileRecord>, path: PathView, at: int)
    requires
        distinct_files(files),
        0 <= at < files.len(),
        files[at].path == path,
    ensures
        has_file(files, path),
        index_of_path(files, path) == at,
        find_file(files, path) == Some(files[at]),
{
    let found = index_of_path(files, path);
    assert(files[found].path == path);
    if found < at {
        assert(files[found].path != files[at].path);
    } else if at < found {
        assert(files[at].path != files[found].path);
    }
}

/// The test for the records whose path is none of `paths`.
pub open spec fn not_among(paths: Seq<PathView>) -> spec_fn(FileRecord) -> bool {
    |record: FileRecord| !paths.contains(record.path)
}

/// Leaving records out keeps the paths of the others distinct.
pub proof fn lemma_filter_keeps_distinct(files: Seq<FileRecord>, keep: spec_fn(FileRecord) -> bool)
    requires
        distinct_files(files),
    ensures
        distinct_files(files.filter(keep)),
    decreases files.len(),
{
    reveal(Seq::filter);
    if files.len() > 0 {
        let rest = files.drop_last();
        lemma_filter_keeps_distinct(rest, keep);
        let kept = rest.filter(keep);
        if keep(files.last()) {
            let out = kept.push(files.last());
            assert forall|i: int, j: int| 0 <= i < j < out.len() implies (#[trigger] out[i]).path != (
            #[trigger] out[j]).path by {
                if j == kept.len() {
                    rest.lemma_filter_contains_rev(keep, kept[i]);
                    let k = choose|k: int| 0 <= k < rest.len() && rest[k] == kept[i];
                    assert(files[k].path != files[files.len() - 1].path);
                }
            }
        }
    }
}

impl SyncData {
    /// Every path is recorded once.
    #[verifier::type_invariant]
    pub closed spec fn wf(&self) -> bool {
        self@.wf()
    }

    /// The snapshot of an empty tree.
    pub fn new() -> (data: Self)
        ensures
            data@.files == Seq::<FileRecord>::empty(),
            data@.directories == Seq::<PathView>::empty(),
    {
        let data = SyncData { files: Vec::new(), directories: Vec::new() };
        assert(data@.files =~= Seq::<FileRecord>::empty());
        assert(data@.directories =~= Seq::<PathView>::empty());
        data
    }

    /// The file records, in the order in which they were entered.
    pub fn files(&self) -> (files: &Vec<FileInfo>)
        ensures
            records(files@) == self@.files,
            distinct_files(self@.files),
    {
        proof {
            use_type_invariant(self);
        }
        &self.files
    }

    /// The directory paths, in the order in which they were entered.
    pub fn directories(&self) -> (directories: &Vec<SyncPath>)
        ensures
            path_views(directories@) == self@.directories,
            self@.directories.no_duplicates(),
    {
        proof {
            use_type_invariant(self);
        }
        &self.directories
    }

    /// The record of the file at `path`, if the snapshot holds one.
    pub fn get(&self, path: &SyncPath) -> (found: Option<&FileInfo>)
        ensures
            match found {
                Some(info) => self@.file(path@) == Some(info@),
                None => self@.file(path@) is None,
            },
    {
        let mut i: usize = 0;
        while i < self.files.len()
            invariant
                i <= self.files.len(),
                forall|k: int| 0 <= k < i ==> (#[trigger] self@.files[k]).path != path@,
            decreases self.files.len() - i,
        {
            if self.files[i].path.same_as(path) {
                proof {
                    use_type_invariant(self);
                    lemma_find_file_at(self@.files, path@, i as int);
                }
                return Some(&self.files[i]);
            }
            i += 1;
        }
        None
    }

    /// Whether the snapshot holds a directory at `path`.
    pub fn has_directory(&self, path: &SyncPath) -> (present: bool)
        ensures
            present == self@.has_dir(path@),
    {
        let mut i: usize = 0;
        while i < self.directories.len()
            invariant
                i <= self.directories.len(),
                forall|k: int| 0 <= k < i ==> (#[trigger] self@.directories[k]) != path@,
            decreases self.directories.len() - i,
        {
            if self.directories[i].same_as(path) {
                assert(self@.directories[i as int] == path@);
                return true;
            }
            i += 1;
        }
        false
    }

    /// Enters `info` under its path, in place of the record that was there.
    pub fn insert_file(&mut self, info: FileInfo)
        ensures
            final(self)@.files == put_file(old(self)@.files, info@),
            final(self)@.directories == old(self)@.directories,
    {
        proof {
            use_type_invariant(&*self);
        }
        let mut files: Vec<FileInfo> = Vec::new();
        core::mem::swap(&mut files, &mut self.files);
        assert(records(files@) == old(self)@.files);
        let mut i: usize = 0;
        let mut at: Option<usize> = None;
        while i < files.len()
            invariant_except_break
                i <= files.len(),
                at is None,
                forall|k: int| 0 <= k < i ==> (#[trigger] records(files@)[k]).path != info@.path,
            ensures
                match at {
                    Some(found) => found < files.len() && records(files@)[found as int].path
                        == info@.path,
                    None => !has_file(records(files@), info@.path),
                },
            decreases files.len() - i,
        {
            if files[i].path.same_as(&info.path) {
                at = Some(i);
                break ;
            }
            i += 1;
        }
        let ghost before = records(files@);
        match at {
            Some(found) => {
                proof {
                    lemma_find_file_at(before, info@.path, found as int);
                }
                files.set(found, info);
                assert(records(files@) =~= put_file(before, info@));
            },
            None => {
                files.push(info);
                assert(records(files@) =~= put_file(before, info@));
            },
        }
        core::mem::swap(&mut files, &mut self.files);
    }

    /// The snapshot without the files at `paths`; the directories stay.
    pub fn without_files(self, paths: &Vec<SyncPath>) -> (rest: SyncData)
        ensures
            rest@.files == self@.files.filter(not_among(path_views(paths@))),
            rest@.directories == self@.directories,
    {
        proof {
            use_type_invariant(&self);
        }
        let ghost all = self@.files;
        let ghost keep = not_among(path_views(paths@));
        let SyncData { files, directories } = self;
        let mut kept: Vec<FileInfo> = Vec::new();
        let mut i: usize = 0;
        assert(all.take(0) =~= Seq::<FileRecord>::empty());
        assert(records(kept@) =~= Seq::<FileRecord>::empty());
        while i < files.len()
            invariant
                i <= files.len(),
                all == records(files@),
                keep == not_among(path_views(paths@)),
                records(kept@) == all.take(i as int).filter(keep),
            decreases files.len() - i,
        {
            let ghost before = records(kept@);
            proof {
                all.lemma_take_succ_push(i as int);
                all.take(i as int).lemma_filter_push(all[i as int], keep);
            }
            let mut listed = false;
            let mut j: usize = 0;
            while j < paths.len()
                invariant_except_break
                    j <= paths.len(),
                    !listed,
                    forall|k: int|
                        0 <= k < j ==> (#[trigger] path_views(paths@)[k]) != all[i as int].path,
                invariant
                    i < files.len(),
                    all == records(files@),
                ensures
                    listed == path_views(paths@).contains(all[i as int].path),
                decreases paths.len() - j,
            {
                if paths[j].same_as(&files[i].path) {
                    assert(path_views(paths@)[j as int] == all[i as int].path);
                    listed = true;
                    break ;
                }
                j += 1;
            }
            if !listed {
                kept.push(files[i].clone());
                assert(records(kept@) =~= before.push(all[i as int]));
            }
            i += 1;
        }
        proof {
            assert(all.take(files.len() as int) =~= all);
            lemma_filter_keeps_distinct(all, keep);
        }
        SyncData { files: kept, directories }
    }

    /// Enters the directory `path`, unless it is there already.
    pub fn insert_directory(&mut self, path: SyncPath)
        ensures
            final(self)@.directories == put_dir(old(self)@.directories, path@),
            final(self)@.files == old(self)@.files,
    {
        proof {
            use_type_invariant(&*self);
        }
        if !self.has_directory(&path) {
            let mut directories: Vec<SyncPath> = Vec::new();
            core::mem::swap(&mut directories, &mut self.directories);
            let ghost before = path_views(directories@);
            directories.push(path);
            assert(path_views(directories@) =~= before.push(path@));
            core::mem::swap(&mut directories, &mut self.directories);
        }
    }
}

/// What the engine and its caller tell each other.
#[derive(Debug, PartialEq, Eq)]
pub enum SyncMessage {
    /// Caller to engine: the answer to a request to confirm a deletion.
    DeletionConfirmed(bool),
    /// Caller to engine: the answer to a conflict.
    ConflictResolved(Resolution),
    /// Caller to engine: stop the run.
    Stop,
    /// Engine to caller: a line for the caller's log.
    Log(String),
    /// Engine to caller: may this path be deleted on this side?
    ConfirmDeletion(Side, SyncPath),
    /// Engine to caller: which version of this file is to stay?
    AskForConflictResolution { path: SyncPath },
    /// Engine to caller: how far the run has come, and what it is doing.
    Progress(Fraction, String),
    /// Engine to caller: the run is complete.
    Complete,
    /// Engine to caller: the run was stopped.
    Stopped,
}

/// The mathematical value of a [`SyncMessage`].
pub enum MessageView {
    DeletionConfirmed(bool),
    ConflictResolved(Resolution),
    Stop,
    Log(Seq<char>),
    ConfirmDeletion(Side, PathView),
    AskForConflictResolution { path: PathView },
    Progress(Fraction, Seq<char>),
    Complete,
    Stopped,
}

impl View for SyncMessage {
    type V = MessageView;

    open spec fn view(&self) -> MessageView {
        match *self {
            SyncMessage::DeletionConfirmed(yes) => MessageView::DeletionConfirmed(yes),
            SyncMessage::ConflictResolved(r) => MessageView::ConflictResolved(r),
            SyncMessage::Stop => MessageView::Stop,
            SyncMessage::Log(text) => MessageView::Log(text@),
            SyncMessage::ConfirmDeletion(side, path) => MessageView::ConfirmDeletion(side, path@),
            SyncMessage::AskForConflictResolution { path } => MessageView::AskForConflictResolution {
                path: path@,
            },
            SyncMessage::Progress(fraction, label) => MessageView::Progress(fraction, label@),
            SyncMessage::Complete => MessageView::Complete,
            SyncMessage::Stopped => MessageView::Stopped,
        }
    }
}

impl Clone for SyncMessage {
    fn clone(&self) -> (copy: Self)
        ensures
            copy@ == self@,
    {
        match self {
            SyncMessage::DeletionConfirmed(yes) => SyncMessage::DeletionConfirmed(*yes),
            SyncMessage::ConflictResolved(r) => SyncMessage::ConflictResolved(*r),
            SyncMessage::Stop => SyncMessage::Stop,
            SyncMessage::Log(text) => SyncMessage::Log(text.clone()),
            SyncMessage::ConfirmDeletion(side, path) => SyncMessage::ConfirmDeletion(
                *side,
                path.clone(),
            ),
            SyncMessage::AskForConflictResolution { path } => SyncMessage::AskForConflictResolution {
                path: path.clone(),
            },
            SyncMessage::Progress(fraction, label) => SyncMessage::Progress(
                *fraction,
                label.clone(),
            ),
            SyncMessage::Complete => SyncMessage::Complete,
            SyncMessage::Stopped => SyncMessage::Stopped,
        }
    }
}

} // verus!
