use syncu::executor::{
    copy_method, created_with, polled, progress_fraction, reply_of, stops, ActionState,
    CopyMethod, Emit, Event, Executor, Look, Note, Reply, Request, RunOutcome,
    LARGE_FILE_THRESHOLD, REPLY_POLL_MILLIS,
};
use syncu::models::{Fraction, Resolution, Side, SyncAction, SyncData, SyncMessage};
use syncu::paths::SyncPath;
use syncu::planner::SyncPlan;

fn at(parts: &[&str]) -> SyncPath {
    SyncPath::new(parts.iter().map(|s| s.to_string()).collect())
}

fn run_of(actions: Vec<SyncAction>, total_size: u64) -> Executor {
    Executor::new(SyncPlan { actions, total_size })
}

fn go(executor: Executor, event: Event) -> (Executor, Vec<Emit>) {
    executor.step(event)
}

#[test]
fn large_files_go_through_the_copy_engine() {
    assert_eq!(LARGE_FILE_THRESHOLD, 10 * 1024 * 1024);
    assert_eq!(copy_method(0), CopyMethod::Direct);
    assert_eq!(copy_method(10 * 1024 * 1024), CopyMethod::Direct);
    assert_eq!(copy_method(10 * 1024 * 1024 + 1), CopyMethod::Chunked);
    assert_eq!(copy_method(50 * 1024 * 1024), CopyMethod::Chunked);
    assert_eq!(REPLY_POLL_MILLIS, 100);
}

#[test]
fn empty_plan_is_complete_at_once() {
    let executor = run_of(vec![], 0);
    assert_eq!(executor.pending(), Request::Finish(RunOutcome::Completed));
    assert_eq!(executor.outcome(), Some(RunOutcome::Completed));
}

#[test]
fn copy_runs_from_poll_to_log_line() {
    let executor = run_of(vec![SyncAction::LocalToRemote(at(&["a.txt"]))], 12);
    assert_eq!(executor.pending(), Request::PollStop);
    assert_eq!(executor.action_state(0), ActionState::Pending);
    let (executor, said) = go(executor, Event::Polled { stop: false });
    assert_eq!(said, vec![]);
    assert_eq!(executor.pending(), Request::Measure { side: Side::Local });
    assert_eq!(executor.action_state(0), ActionState::Executing);
    let (executor, said) = go(executor, Event::Measured { size: 12 });
    assert_eq!(said, vec![Emit::Progress { index: 0, fraction: Fraction { done: 0, total: 12 } }]);
    assert_eq!(executor.pending(), Request::Copy { from: Side::Local, method: CopyMethod::Direct });
    let (executor, said) = go(executor, Event::Done);
    assert_eq!(said, vec![Emit::Journal { index: 0, note: Note::CopiedToRemote }]);
    assert_eq!(executor.pending(), Request::Finish(RunOutcome::Completed));
    assert_eq!(executor.processed(), 12);
    assert_eq!(executor.total(), 12);
    assert_eq!(executor.position(), 1);
    assert_eq!(executor.action_state(0), ActionState::Completed);
}

#[test]
fn canceled_large_copy_ends_the_run_as_stopped() {
    let executor = run_of(vec![SyncAction::RemoteToLocal(at(&["big.bin"]))], 50 * 1024 * 1024);
    let (executor, _) = go(executor, Event::Polled { stop: false });
    assert_eq!(executor.pending(), Request::Measure { side: Side::Remote });
    let (executor, _) = go(executor, Event::Measured { size: 50 * 1024 * 1024 });
    assert_eq!(executor.pending(), Request::Copy { from: Side::Remote, method: CopyMethod::Chunked });
    let (executor, said) = go(executor, Event::CopyStopped);
    assert_eq!(said, vec![]);
    assert_eq!(executor.pending(), Request::Finish(RunOutcome::Stopped));
    assert_eq!(executor.outcome(), Some(RunOutcome::Stopped));
    assert_eq!(executor.action_state(0), ActionState::Canceled);
    assert_eq!(executor.processed(), 0);
    // Over is over.
    let (executor, said) = go(executor, Event::Done);
    assert_eq!(said, vec![]);
    assert_eq!(executor.outcome(), Some(RunOutcome::Stopped));
    assert_eq!(executor.position(), 0);
}

#[test]
fn refused_deletion_keeps_the_file_and_logs_it() {
    let executor = run_of(
        vec![SyncAction::DeleteLocal(at(&["a.txt"])), SyncAction::CreateRemoteDir(at(&["d"]))],
        0,
    );
    let (executor, said) = go(executor, Event::Polled { stop: false });
    assert_eq!(
        said,
        vec![
            Emit::Progress { index: 0, fraction: Fraction { done: 0, total: 1 } },
            Emit::ConfirmDeletion { index: 0, side: Side::Local },
        ]
    );
    assert_eq!(executor.pending(), Request::AwaitReply);
    // Waiting goes on over timeouts and messages that are no answer.
    let (executor, said) = go(executor, Event::Timeout);
    assert_eq!(said, vec![]);
    assert_eq!(executor.pending(), Request::AwaitReply);
    let (executor, _) = go(executor, Event::Reply(Reply::Other));
    let (executor, _) = go(executor, Event::Reply(Reply::ConflictResolved(Resolution::Skip)));
    assert_eq!(executor.pending(), Request::AwaitReply);
    let (executor, said) = go(executor, Event::Reply(Reply::DeletionConfirmed(false)));
    assert_eq!(said, vec![Emit::Journal { index: 0, note: Note::KeptFile }]);
    assert_eq!(executor.action_state(0), ActionState::Canceled);
    assert_eq!(executor.pending(), Request::PollStop);
    assert_eq!(executor.outcome(), None);
    let (executor, said) = go(executor, Event::Polled { stop: false });
    assert_eq!(said, vec![Emit::Progress { index: 1, fraction: Fraction { done: 0, total: 1 } }]);
    assert_eq!(executor.pending(), Request::CreateDir { side: Side::Remote });
    let (executor, said) = go(executor, Event::Done);
    assert_eq!(said, vec![Emit::Journal { index: 1, note: Note::CreatedRemoteDir }]);
    assert_eq!(executor.outcome(), Some(RunOutcome::Completed));
}

#[test]
fn confirmed_deletions_remove_files_and_directories() {
    let executor = run_of(
        vec![SyncAction::DeleteRemote(at(&["a.txt"])), SyncAction::DeleteLocalDir(at(&["d"]))],
        0,
    );
    let (executor, _) = go(executor, Event::Polled { stop: false });
    let (executor, said) = go(executor, Event::Reply(Reply::DeletionConfirmed(true)));
    assert_eq!(said, vec![]);
    assert_eq!(executor.pending(), Request::RemoveFile { side: Side::Remote });
    let (executor, said) = go(executor, Event::Done);
    assert_eq!(said, vec![Emit::Journal { index: 0, note: Note::DeletedRemoteFile }]);
    let (executor, said) = go(executor, Event::Polled { stop: false });
    assert_eq!(said[1], Emit::ConfirmDeletion { index: 1, side: Side::Local });
    let (executor, _) = go(executor, Event::Reply(Reply::DeletionConfirmed(true)));
    assert_eq!(executor.pending(), Request::RemoveDir { side: Side::Local });
    let (executor, said) = go(executor, Event::Done);
    assert_eq!(said, vec![Emit::Journal { index: 1, note: Note::DeletedLocalDir }]);
    assert_eq!(executor.outcome(), Some(RunOutcome::Completed));
    assert_eq!(executor.action_state(0), ActionState::Completed);
    assert_eq!(executor.action_state(1), ActionState::Completed);
}

#[test]
fn refused_directory_deletion_has_its_own_note() {
    let executor = run_of(vec![SyncAction::DeleteRemoteDir(at(&["d"]))], 0);
    let (executor, _) = go(executor, Event::Polled { stop: false });
    let (executor, said) = go(executor, Event::Reply(Reply::DeletionConfirmed(false)));
    assert_eq!(said, vec![Emit::Journal { index: 0, note: Note::KeptDir }]);
    assert_eq!(executor.outcome(), Some(RunOutcome::Completed));
}

#[test]
fn conflict_kept_local_copies_to_the_mirror() {
    let executor = run_of(vec![SyncAction::Conflict { path: at(&["a.txt"]) }], 5);
    let (executor, _) = go(executor, Event::Polled { stop: false });
    assert_eq!(executor.pending(), Request::Measure { side: Side::Local });
    let (executor, said) = go(executor, Event::Measured { size: 5 });
    assert_eq!(
        said,
        vec![
            Emit::Progress { index: 0, fraction: Fraction { done: 0, total: 5 } },
            Emit::AskResolution { index: 0 },
        ]
    );
    assert_eq!(executor.pending(), Request::AwaitReply);
    let (executor, _) = go(executor, Event::Reply(Reply::ConflictResolved(Resolution::KeepLocal)));
    assert_eq!(executor.pending(), Request::Copy { from: Side::Local, method: CopyMethod::Direct });
    let (executor, said) = go(executor, Event::Done);
    assert_eq!(said, vec![Emit::Journal { index: 0, note: Note::KeptLocal }]);
    assert_eq!(executor.processed(), 5);
    assert_eq!(executor.skipped_paths(), vec![]);
}

#[test]
fn conflict_kept_remote_is_routed_by_the_remote_size() {
    let executor = run_of(vec![SyncAction::Conflict { path: at(&["a.txt"]) }], 5);
    let (executor, _) = go(executor, Event::Polled { stop: false });
    let (executor, _) = go(executor, Event::Measured { size: 5 });
    let (executor, said) = go(executor, Event::Reply(Reply::ConflictResolved(Resolution::KeepRemote)));
    assert_eq!(said, vec![]);
    assert_eq!(executor.pending(), Request::Measure { side: Side::Remote });
    let (executor, _) = go(executor, Event::Measured { size: 11 * 1024 * 1024 });
    assert_eq!(executor.pending(), Request::Copy { from: Side::Remote, method: CopyMethod::Chunked });
    let (executor, said) = go(executor, Event::Done);
    assert_eq!(said, vec![Emit::Journal { index: 0, note: Note::KeptRemote }]);
    // A conflict counts with its local size.
    assert_eq!(executor.processed(), 5);
}

#[test]
fn skipped_conflict_is_recorded_for_the_new_baseline() {
    let executor = run_of(
        vec![
            SyncAction::Conflict { path: at(&["a.txt"]) },
            SyncAction::Conflict { path: at(&["d", "b.txt"]) },
        ],
        9,
    );
    let (executor, _) = go(executor, Event::Polled { stop: false });
    let (executor, _) = go(executor, Event::Measured { size: 4 });
    let (executor, said) = go(executor, Event::Reply(Reply::ConflictResolved(Resolution::Skip)));
    assert_eq!(said, vec![Emit::Journal { index: 0, note: Note::SkippedConflict }]);
    assert_eq!(executor.action_state(0), ActionState::Skipped);
    assert_eq!(executor.action_state(1), ActionState::Pending);
    let (executor, _) = go(executor, Event::Polled { stop: false });
    let (executor, said) = go(executor, Event::Measured { size: 5 });
    assert_eq!(said[0], Emit::Progress { index: 1, fraction: Fraction { done: 4, total: 9 } });
    let (executor, _) = go(executor, Event::Reply(Reply::ConflictResolved(Resolution::KeepLocal)));
    let (executor, _) = go(executor, Event::Done);
    assert_eq!(executor.skipped_paths(), vec![at(&["a.txt"])]);
    assert_eq!(executor.outcome(), Some(RunOutcome::Completed));
    assert_eq!(executor.actions().len(), 2);
}

#[test]
fn stop_is_seen_before_an_action_and_while_waiting() {
    let executor = run_of(vec![SyncAction::DeleteLocal(at(&["a"]))], 0);
    let (executor, said) = go(executor, Event::Polled { stop: true });
    assert_eq!(said, vec![]);
    assert_eq!(executor.outcome(), Some(RunOutcome::Stopped));
    assert_eq!(executor.action_state(0), ActionState::Pending);

    let executor = run_of(vec![SyncAction::DeleteLocal(at(&["a"]))], 0);
    let (executor, _) = go(executor, Event::Polled { stop: false });
    let (executor, said) = go(executor, Event::Reply(Reply::Stop));
    assert_eq!(said, vec![]);
    assert_eq!(executor.outcome(), Some(RunOutcome::Stopped));
    assert_eq!(executor.action_state(0), ActionState::Canceled);
}

#[test]
fn lost_caller_counts_as_stop_and_failure_as_failed() {
    let executor = run_of(vec![SyncAction::Conflict { path: at(&["a"]) }], 1);
    let (executor, _) = go(executor, Event::Polled { stop: false });
    let (executor, _) = go(executor, Event::Measured { size: 1 });
    let (executor, _) = go(executor, Event::Disconnected);
    assert_eq!(executor.outcome(), Some(RunOutcome::Stopped));

    let executor = run_of(vec![SyncAction::CreateLocalDir(at(&["d"]))], 0);
    let (executor, _) = go(executor, Event::Polled { stop: false });
    assert_eq!(executor.pending(), Request::CreateDir { side: Side::Local });
    let (executor, said) = go(executor, Event::Failed);
    assert_eq!(said, vec![]);
    assert_eq!(executor.outcome(), Some(RunOutcome::Failed));
    assert_eq!(executor.pending(), Request::Finish(RunOutcome::Failed));
}

#[test]
fn events_out_of_place_change_nothing() {
    let executor = run_of(vec![SyncAction::LocalToRemote(at(&["a"]))], 3);
    let (executor, said) = go(executor, Event::Done);
    assert_eq!(said, vec![]);
    assert_eq!(executor.pending(), Request::PollStop);
    let (executor, said) = go(executor, Event::Measured { size: 3 });
    assert_eq!(said, vec![]);
    assert_eq!(executor.pending(), Request::PollStop);
    let (executor, _) = go(executor, Event::CopyStopped);
    assert_eq!(executor.outcome(), None);
}

#[test]
fn progress_fraction_stays_within_the_whole() {
    assert_eq!(progress_fraction(0, 0), Fraction { done: 0, total: 1 });
    assert_eq!(progress_fraction(7, 0), Fraction { done: 0, total: 1 });
    assert_eq!(progress_fraction(3, 12), Fraction { done: 3, total: 12 });
    assert_eq!(progress_fraction(13, 12), Fraction { done: 12, total: 12 });
}

#[test]
fn processed_bytes_stop_at_the_largest_count() {
    let executor = run_of(
        vec![SyncAction::LocalToRemote(at(&["a"])), SyncAction::LocalToRemote(at(&["b"]))],
        u64::MAX,
    );
    let (executor, _) = go(executor, Event::Polled { stop: false });
    let (executor, _) = go(executor, Event::Measured { size: u64::MAX - 1 });
    let (executor, _) = go(executor, Event::Done);
    let (executor, _) = go(executor, Event::Polled { stop: false });
    let (executor, _) = go(executor, Event::Measured { size: 10 });
    let (executor, _) = go(executor, Event::Done);
    assert_eq!(executor.processed(), u64::MAX);
}

#[test]
fn incoming_messages_are_read_as_replies() {
    assert_eq!(reply_of(&SyncMessage::DeletionConfirmed(true)), Reply::DeletionConfirmed(true));
    assert_eq!(reply_of(&SyncMessage::DeletionConfirmed(false)), Reply::DeletionConfirmed(false));
    assert_eq!(
        reply_of(&SyncMessage::ConflictResolved(Resolution::KeepRemote)),
        Reply::ConflictResolved(Resolution::KeepRemote)
    );
    assert_eq!(reply_of(&SyncMessage::Stop), Reply::Stop);
    assert_eq!(reply_of(&SyncMessage::Complete), Reply::Other);
    assert_eq!(reply_of(&SyncMessage::Log("x".to_string())), Reply::Other);
}

#[test]
fn lost_caller_counts_as_stop_at_every_look() {
    assert!(stops(Look::Gone));
    assert!(stops(Look::Message(Reply::Stop)));
    assert!(!stops(Look::Empty));
    assert!(!stops(Look::Message(Reply::Other)));
    assert!(!stops(Look::Message(Reply::DeletionConfirmed(true))));
    assert_eq!(polled(Look::Gone), Event::Disconnected);
    assert_eq!(polled(Look::Message(Reply::Stop)), Event::Polled { stop: true });
    assert_eq!(polled(Look::Empty), Event::Polled { stop: false });
    assert_eq!(polled(Look::Message(Reply::Other)), Event::Polled { stop: false });
    let executor = run_of(vec![SyncAction::LocalToRemote(at(&["a"]))], 1);
    let (executor, _) = go(executor, polled(Look::Gone));
    assert_eq!(executor.outcome(), Some(RunOutcome::Stopped));
}

#[test]
fn created_directory_brings_all_below_it() {
    let mut source = SyncData::new();
    for d in [&["a", "b"][..], &["x"], &["a"], &["a", "b", "c"], &["ab"], &["a", "d"]] {
        source.insert_directory(at(d));
    }
    assert_eq!(
        created_with(&source, &at(&["a"])),
        vec![at(&["a"]), at(&["a", "b"]), at(&["a", "b", "c"]), at(&["a", "d"])]
    );
    assert_eq!(created_with(&source, &at(&["x"])), vec![at(&["x"])]);
    assert_eq!(created_with(&SyncData::new(), &at(&["n"])), vec![at(&["n"])]);
}
