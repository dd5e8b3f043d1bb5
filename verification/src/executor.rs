//! Carrying out a plan, one action after the other. The engine decides; the
//! caller of this module does the work on disk and on the channels, and
//! reports back what came of it.

use vstd::prelude::*;
use crate::models::{
    action_views, path_views, ActionKind, ActionView, Fraction, MessageView, Resolution, Side,
    SyncAction, SyncMessage,
};
use crate::models::SyncData;
use crate::paths::{is_ancestor, PathView, SyncPath};
use crate::planner::SyncPlan;

verus! {

/// The size above which a file is copied in chunks: 10 MiB.
pub const LARGE_FILE_THRESHOLD: u64 = 10 * 1024 * 1024;

/// How long one wait for the caller's reply lasts before the engine looks
/// again, in milliseconds.
pub const REPLY_POLL_MILLIS: u64 = 100;

/// How a file is copied.
#[derive(Clone, Copy, Debug, PartialEq, Eq, Structural)]
pub enum CopyMethod {
    /// In one call.
    Direct,
    /// Chunk by chunk, with progress and the chance to stop.
    Chunked,
}

/// How a file of the given size is copied.
pub open spec fn route_of(size: u64) -> CopyMethod {
    if size > LARGE_FILE_THRESHOLD {
        CopyMethod::Chunked
    } else {
        CopyMethod::Direct
    }
}

/// Chooses how to copy a file of the given size.
pub fn copy_method(size: u64) -> (method: CopyMethod)
    ensures
        method == route_of(size),
{
    if size > LARGE_FILE_THRESHOLD {
        CopyMethod::Chunked
    } else {
        CopyMethod::Direct
    }
}

/// How a run ended.
#[derive(Clone, Copy, Debug, PartialEq, Eq, Structural)]
pub enum RunOutcome {
    Completed,
    Stopped,
    Failed,
}

/// Where one action of the plan stands.
#[derive(Clone, Copy, Debug, PartialEq, Eq, Structural)]
pub enum ActionState {
    Pending,
    Executing,
    Completed,
    Skipped,
    Canceled,
}

/// What became of an action; each has its own log line.
#[derive(Clone, Copy, Debug, PartialEq, Eq, Structural)]
pub enum Note {
    CopiedToRemote,
    CopiedToLocal,
    DeletedLocalFile,
    DeletedRemoteFile,
    /// The caller refused the deletion of a file.
    KeptFile,
    /// A conflict was settled in favour of the local file.
    KeptLocal,
    /// A conflict was settled in favour of the remote file.
    KeptRemote,
    SkippedConflict,
    CreatedLocalDir,
    CreatedRemoteDir,
    DeletedLocalDir,
    DeletedRemoteDir,
    /// The caller refused the deletion of a directory.
    KeptDir,
}

/// What the engine is waiting for.
#[derive(Clone, Copy, Debug, PartialEq, Eq, Structural)]
pub enum Phase {
    /// Before an action: has the caller asked to stop?
    Polling,
    /// The size of the file that the action is counted with.
    Measuring,
    /// The caller's answer to a deletion.
    Confirming,
    /// The caller's answer to a conflict.
    Resolving,
    /// The size of the remote file that a conflict was settled for.
    Routing,
    /// The work on disk that ends the action with the given note.
    Working(Note),
    /// Nothing: the run is over.
    Finished(RunOutcome),
}

/// What the caller has to say to the engine about a message that came in.
#[derive(Clone, Copy, Debug, PartialEq, Eq, Structural)]
pub enum Reply {
    DeletionConfirmed(bool),
    ConflictResolved(Resolution),
    Stop,
    /// Any message that is no answer.
    Other,
}

/// What happened outside, reported to the engine.
#[derive(Clone, Copy, Debug, PartialEq, Eq, Structural)]
pub enum Event {
    /// The stop signal was looked for.
    Polled { stop: bool },
    /// A file was measured; a file that cannot be read counts as empty.
    Measured { size: u64 },
    /// A message came in while the engine waited.
    Reply(Reply),
    /// No message came in within the time of one wait.
    Timeout,
    /// The caller is gone.
    Disconnected,
    /// The requested work was done.
    Done,
    /// A chunked copy was stopped on the caller's request.
    CopyStopped,
    /// The requested work, or writing a message or log line, failed.
    Failed,
}

/// What the engine asks to be done outside.
#[derive(Clone, Copy, Debug, PartialEq, Eq, Structural)]
pub enum Request {
    /// Look for the stop signal, without waiting.
    PollStop,
    /// Measure the current action's file on the given side.
    Measure { side: Side },
    /// Wait for a message, for at most `REPLY_POLL_MILLIS`.
    AwaitReply,
    /// Copy the current action's file from the given side to the other.
    Copy { from: Side, method: CopyMethod },
    /// Remove the current action's file.
    RemoveFile { side: Side },
    /// Remove the current action's directory with all below it.
    RemoveDir { side: Side },
    /// Create the current action's directory, and with it every directory
    /// that the other tree holds below it: `created_with` lists them.
    CreateDir { side: Side },
    /// Nothing more: the run has ended.
    Finish(RunOutcome),
}

/// What the engine has to say after a step, by the number of the action
/// that it speaks of.
#[derive(Clone, Copy, Debug, PartialEq, Eq, Structural)]
pub enum Emit {
    /// How far the run has come as the action starts.
    Progress { index: usize, fraction: Fraction },
    /// Ask the caller to confirm a deletion.
    ConfirmDeletion { index: usize, side: Side },
    /// Ask the caller to settle a conflict.
    AskResolution { index: usize },
    /// One line for the caller's log and for the durable log.
    Journal { index: usize, note: Note },
}

/// The mathematical value of an [`Executor`].
pub struct ExecutorView {
    /// What each action of the plan does.
    pub kinds: Seq<ActionKind>,
    /// The bytes that the plan stands for.
    pub total: u64,
    /// The number of the current action; the actions before it are over.
    pub index: int,
    /// The bytes of the actions that are over.
    pub processed: u64,
    /// The bytes that the current action is counted with.
    pub size: u64,
    /// The size of the file that the current action copies.
    pub source: u64,
    pub phase: Phase,
    /// What became of each action that is over.
    pub notes: Seq<Note>,
    /// Whether the run ended in the middle of the current action.
    pub interrupted: bool,
}

/// Whether `note` can be what becomes of an action of the given kind.
pub open spec fn note_fits(kind: ActionKind, note: Note) -> bool {
    match kind {
        ActionKind::LocalToRemote => note == Note::CopiedToRemote,
        ActionKind::RemoteToLocal => note == Note::CopiedToLocal,
        ActionKind::DeleteLocal => note == Note::DeletedLocalFile || note == Note::KeptFile,
        ActionKind::DeleteRemote => note == Note::DeletedRemoteFile || note == Note::KeptFile,
        ActionKind::CreateLocalDir => note == Note::CreatedLocalDir,
        ActionKind::CreateRemoteDir => note == Note::CreatedRemoteDir,
        ActionKind::DeleteLocalDir => note == Note::DeletedLocalDir || note == Note::KeptDir,
        ActionKind::DeleteRemoteDir => note == Note::DeletedRemoteDir || note == Note::KeptDir,
        ActionKind::Conflict => note == Note::KeptLocal || note == Note::KeptRemote || note
            == Note::SkippedConflict,
    }
}

/// Whether the work that ends with `note` is work on disk.
pub open spec fn is_work(note: Note) -> bool {
    note != Note::KeptFile && note != Note::KeptDir && note != Note::SkippedConflict
}

/// Whether an action of the given kind asks the caller before it deletes.
pub open spec fn is_deletion(kind: ActionKind) -> bool {
    kind == ActionKind::DeleteLocal || kind == ActionKind::DeleteRemote || kind
        == ActionKind::DeleteLocalDir || kind == ActionKind::DeleteRemoteDir
}

/// Whether an action of the given kind is counted with the size of a file.
pub open spec fn is_measured(kind: ActionKind) -> bool {
    kind == ActionKind::LocalToRemote || kind == ActionKind::RemoteToLocal || kind
        == ActionKind::Conflict
}

/// The side on which an action of the given kind deletes or creates, and
/// from which a copy reads; a conflict is counted with its local file.
pub open spec fn side_of(kind: ActionKind) -> Side {
    match kind {
        ActionKind::LocalToRemote => Side::Local,
        ActionKind::RemoteToLocal => Side::Remote,
        ActionKind::DeleteLocal => Side::Local,
        ActionKind::DeleteRemote => Side::Remote,
        ActionKind::CreateLocalDir => Side::Local,
        ActionKind::CreateRemoteDir => Side::Remote,
        ActionKind::DeleteLocalDir => Side::Local,
        ActionKind::DeleteRemoteDir => Side::Remote,
        ActionKind::Conflict => Side::Local,
    }
}

/// What becomes of an action that needs no answer once its work is done.
pub open spec fn done_note(kind: ActionKind) -> Note {
    match kind {
        ActionKind::LocalToRemote => Note::CopiedToRemote,
        ActionKind::RemoteToLocal => Note::CopiedToLocal,
        ActionKind::DeleteLocal => Note::DeletedLocalFile,
        ActionKind::DeleteRemote => Note::DeletedRemoteFile,
        ActionKind::CreateLocalDir => Note::CreatedLocalDir,
        ActionKind::CreateRemoteDir => Note::CreatedRemoteDir,
        ActionKind::DeleteLocalDir => Note::DeletedLocalDir,
        ActionKind::DeleteRemoteDir => Note::DeletedRemoteDir,
        ActionKind::Conflict => Note::KeptLocal,
    }
}

/// What becomes of a deletion that the caller refused.
pub open spec fn kept_note(kind: ActionKind) -> Note {
    if kind == ActionKind::DeleteLocalDir || kind == ActionKind::DeleteRemoteDir {
        Note::KeptDir
    } else {
        Note::KeptFile
    }
}

/// The state of an action that is over, by what became of it.
pub open spec fn state_of_note(note: Note) -> ActionState {
    match note {
        Note::SkippedConflict => ActionState::Skipped,
        Note::KeptFile => ActionState::Canceled,
        Note::KeptDir => ActionState::Canceled,
        _ => ActionState::Completed,
    }
}

/// `processed` of `total` bytes as a fraction; of a plan that moves no bytes,
/// nothing is done until it is over.
pub open spec fn fraction_of(processed: u64, total: u64) -> Fraction {
    if total == 0 {
        Fraction { done: 0, total: 1 }
    } else if processed > total {
        Fraction { done: total, total }
    } else {
        Fraction { done: processed, total }
    }
}

/// The sum of two byte counts, held to what a `u64` can count.
pub open spec fn counted(a: u64, b: u64) -> u64 {
    if a + b > u64::MAX {
        u64::MAX
    } else {
        (a + b) as u64
    }
}

impl ExecutorView {
    /// The kind of the current action.
    pub open spec fn kind(self) -> ActionKind {
        self.kinds[self.index]
    }

    /// The state is one that a run can reach.
    pub open spec fn wf(self) -> bool {
        &&& 0 <= self.index <= self.kinds.len()
        &&& self.kinds.len() <= usize::MAX
        &&& self.notes.len() == self.index
        &&& forall|i: int| 0 <= i < self.index ==> note_fits(self.kinds[i], #[trigger] self.notes[i])
        &&& self.phase !is Finished ==> self.index < self.kinds.len()
        &&& self.phase == Phase::Finished(RunOutcome::Completed) <==> self.index
            == self.kinds.len()
        &&& self.interrupted ==> self.phase is Finished && self.index < self.kinds.len()
        &&& self.phase is Measuring ==> is_measured(self.kind())
        &&& self.phase is Confirming ==> is_deletion(self.kind())
        &&& self.phase is Resolving ==> self.kind() == ActionKind::Conflict
        &&& self.phase is Routing ==> self.kind() == ActionKind::Conflict
        &&& self.phase matches Phase::Working(note) ==> note_fits(self.kind(), note) && is_work(note)
    }

    /// The state in which the run has ended with the given outcome.
    pub open spec fn halted(self, outcome: RunOutcome) -> ExecutorView {
        ExecutorView {
            phase: Phase::Finished(outcome),
            interrupted: self.phase !is Polling,
            ..self
        }
    }

    /// The state after the current action is over, with the line that says
    /// what became of it.
    pub open spec fn concluded(self, note: Note) -> (ExecutorView, Seq<Emit>) {
        (
            ExecutorView {
                index: self.index + 1,
                processed: counted(self.processed, self.size),
                size: 0,
                source: 0,
                phase: if self.index + 1 == self.kinds.len() {
                    Phase::Finished(RunOutcome::Completed)
                } else {
                    Phase::Polling
                },
                notes: self.notes.push(note),
                ..self
            },
            seq![Emit::Journal { index: self.index as usize, note }],
        )
    }

    /// The line that says how far the run has come as the current action
    /// starts.
    pub open spec fn progress(self) -> Emit {
        Emit::Progress {
            index: self.index as usize,
            fraction: fraction_of(self.processed, self.total),
        }
    }

    /// The state after the stop signal was looked for and not found: the
    /// current action starts.
    pub open spec fn started(self) -> (ExecutorView, Seq<Emit>) {
        let kind = self.kind();
        if is_measured(kind) {
            (ExecutorView { phase: Phase::Measuring, ..self }, Seq::empty())
        } else if is_deletion(kind) {
            (
                ExecutorView { phase: Phase::Confirming, size: 0, source: 0, ..self },
                seq![
                    self.progress(),
                    Emit::ConfirmDeletion { index: self.index as usize, side: side_of(kind) },
                ],
            )
        } else {
            (
                ExecutorView { phase: Phase::Working(done_note(kind)), size: 0, source: 0, ..self },
                seq![self.progress()],
            )
        }
    }

    /// The state after the current action's file was measured.
    pub open spec fn measured(self, size: u64) -> (ExecutorView, Seq<Emit>) {
        let kind = self.kind();
        if kind == ActionKind::Conflict {
            (
                ExecutorView { phase: Phase::Resolving, size, source: size, ..self },
                seq![self.progress(), Emit::AskResolution { index: self.index as usize }],
            )
        } else {
            (
                ExecutorView { phase: Phase::Working(done_note(kind)), size, source: size, ..self },
                seq![self.progress()],
            )
        }
    }

    /// The state after an event, and what the engine has to say.
    pub open spec fn stepped(self, event: Event) -> (ExecutorView, Seq<Emit>) {
        if self.phase is Finished {
            (self, Seq::empty())
        } else if event is Failed {
            (self.halted(RunOutcome::Failed), Seq::empty())
        } else if event is Disconnected || event == Event::Reply(Reply::Stop) {
            (self.halted(RunOutcome::Stopped), Seq::empty())
        } else {
            match (self.phase, event) {
                (Phase::Polling, Event::Polled { stop }) => if stop {
                    (self.halted(RunOutcome::Stopped), Seq::empty())
                } else {
                    self.started()
                },
                (Phase::Measuring, Event::Measured { size }) => self.measured(size),
                (Phase::Confirming, Event::Reply(Reply::DeletionConfirmed(yes))) => if yes {
                    (
                        ExecutorView { phase: Phase::Working(done_note(self.kind())), ..self },
                        Seq::empty(),
                    )
                } else {
                    self.concluded(kept_note(self.kind()))
                },
                (Phase::Resolving, Event::Reply(Reply::ConflictResolved(resolution))) => {
                    match resolution {
                        Resolution::KeepLocal => (
                            ExecutorView { phase: Phase::Working(Note::KeptLocal), ..self },
                            Seq::empty(),
                        ),
                        Resolution::KeepRemote => (
                            ExecutorView { phase: Phase::Routing, ..self },
                            Seq::empty(),
                        ),
                        Resolution::Skip => self.concluded(Note::SkippedConflict),
                    }
                },
                (Phase::Routing, Event::Measured { size }) => (
                    ExecutorView { phase: Phase::Working(Note::KeptRemote), source: size, ..self },
                    Seq::empty(),
                ),
                (Phase::Working(note), Event::Done) => self.concluded(note),
                (Phase::Working(_), Event::CopyStopped) => (
                    self.halted(RunOutcome::Stopped),
                    Seq::empty(),
                ),
                _ => (self, Seq::empty()),
            }
        }
    }

    /// What the engine asks for in this state.
    pub open spec fn request(self) -> Request {
        match self.phase {
            Phase::Polling => Request::PollStop,
            Phase::Measuring => Request::Measure { side: side_of(self.kind()) },
            Phase::Confirming => Request::AwaitReply,
            Phase::Resolving => Request::AwaitReply,
            Phase::Routing => Request::Measure { side: Side::Remote },
            Phase::Working(note) => match note {
                Note::CopiedToRemote => Request::Copy {
                    from: Side::Local,
                    method: route_of(self.source),
                },
                Note::KeptLocal => Request::Copy {
                    from: Side::Local,
                    method: route_of(self.source),
                },
                Note::CopiedToLocal => Request::Copy {
                    from: Side::Remote,
                    method: route_of(self.source),
                },
                Note::KeptRemote => Request::Copy {
                    from: Side::Remote,
                    method: route_of(self.source),
                },
                Note::DeletedLocalFile => Request::RemoveFile { side: Side::Local },
                Note::DeletedRemoteFile => Request::RemoveFile { side: Side::Remote },
                Note::CreatedLocalDir => Request::CreateDir { side: Side::Local },
                Note::CreatedRemoteDir => Request::CreateDir { side: Side::Remote },
                Note::DeletedLocalDir => Request::RemoveDir { side: Side::Local },
                Note::DeletedRemoteDir => Request::RemoveDir { side: Side::Remote },
                _ => Request::PollStop,
            },
            Phase::Finished(outcome) => Request::Finish(outcome),
        }
    }

    /// Where the action with the given number stands.
    pub open spec fn state_of(self, i: int) -> ActionState {
        if 0 <= i < self.index {
            state_of_note(self.notes[i])
        } else if i == self.index && self.interrupted {
            ActionState::Canceled
        } else if i == self.index && self.phase !is Finished && self.phase !is Polling {
            ActionState::Executing
        } else {
            ActionState::Pending
        }
    }
}

/// The kinds of a sequence of actions.
pub open spec fn kinds_of(actions: Seq<SyncAction>) -> Seq<ActionKind> {
    Seq::new(actions.len(), |i: int| actions[i]@.kind)
}

/// The state in which a run of a plan begins.
pub open spec fn initial(kinds: Seq<ActionKind>, total: u64) -> ExecutorView {
    ExecutorView {
        kinds,
        total,
        index: 0,
        processed: 0,
        size: 0,
        source: 0,
        phase: if kinds.len() == 0 {
            Phase::Finished(RunOutcome::Completed)
        } else {
            Phase::Polling
        },
        notes: Seq::empty(),
        interrupted: false,
    }
}

/// Every step leads from a state that a run can reach to another.
pub proof fn law_step_keeps_wf(state: ExecutorView, event: Event)
    requires
        state.wf(),
    ensures
        state.stepped(event).0.wf(),
{
    let next = state.stepped(event).0;
    if next.index == state.index + 1 {
        assert forall|i: int| 0 <= i < next.index implies note_fits(
            next.kinds[i],
            #[trigger] next.notes[i],
        ) by {
            if i < state.index {
                assert(next.notes[i] == state.notes[i]);
            }
        }
    }
}

/// A run is complete exactly when every action is over: each was carried
/// out, skipped on the caller's word, or refused by the caller.
pub proof fn law_completed_means_all_over(state: ExecutorView, i: int)
    requires
        state.wf(),
        state.phase == Phase::Finished(RunOutcome::Completed),
        0 <= i < state.kinds.len(),
    ensures
        state.notes.len() == state.kinds.len(),
        note_fits(state.kinds[i], state.notes[i]),
        state.state_of(i) == ActionState::Completed || state.state_of(i) == ActionState::Skipped
            || state.state_of(i) == ActionState::Canceled,
        !state.interrupted,
{
}

/// A run begins in a state that a run can reach, with every action pending.
pub proof fn law_initial_state(kinds: Seq<ActionKind>, total: u64, i: int)
    requires
        kinds.len() <= usize::MAX,
    ensures
        initial(kinds, total).wf(),
        initial(kinds, total).state_of(i) == ActionState::Pending,
{
}

/// A run that is over stays over, and says no more.
pub proof fn law_finished_is_final(state: ExecutorView, event: Event)
    requires
        state.phase is Finished,
    ensures
        state.stepped(event) == (state, Seq::<Emit>::empty()),
{
}

/// The request to stop and the loss of the caller end the run as stopped,
/// wherever it stands; a failure ends it as failed. Nothing more is done and
/// nothing is said: what was done before stays done.
pub proof fn law_stop_and_failure_end_the_run(state: ExecutorView, event: Event)
    requires
        state.wf(),
        state.phase !is Finished,
        event is Failed || event is Disconnected || event == Event::Reply(Reply::Stop) || (
        state.phase is Polling && event == (Event::Polled { stop: true })) || (state.phase is Working
            && event is CopyStopped),
    ensures
        state.stepped(event).1 == Seq::<Emit>::empty(),
        state.stepped(event).0.phase == Phase::Finished(
            if event is Failed {
                RunOutcome::Failed
            } else {
                RunOutcome::Stopped
            },
        ),
        state.stepped(event).0.index == state.index,
        state.stepped(event).0.notes == state.notes,
        state.stepped(event).0.processed == state.processed,
{
}

/// Each action that is carried out or refused gets exactly one line in the
/// log, as it ends; no other step writes one.
pub proof fn law_one_line_per_action(state: ExecutorView, event: Event)
    requires
        state.wf(),
    ensures
        ({
            let (next, said) = state.stepped(event);
            if next.index == state.index {
                forall|i: int| 0 <= i < said.len() ==> !(#[trigger] said[i] is Journal)
            } else {
                &&& next.index == state.index + 1
                &&& said == seq![
                    Emit::Journal { index: state.index as usize, note: next.notes[state.index] },
                ]
                &&& next.notes == state.notes.push(next.notes[state.index])
                &&& next.processed == counted(state.processed, state.size)
            }
        }),
{
}

/// A refused deletion deletes nothing: the action ends as canceled, with no
/// request for work on disk.
pub proof fn law_refusal_keeps(state: ExecutorView)
    requires
        state.wf(),
        state.phase is Confirming,
    ensures
        ({
            let next = state.stepped(Event::Reply(Reply::DeletionConfirmed(false))).0;
            &&& next.state_of(state.index) == ActionState::Canceled
            &&& (next.request() is PollStop || next.request() is Finish)
        }),
{
}

/// A skipped conflict copies nothing and is recorded as skipped.
pub proof fn law_skip_is_recorded(state: ExecutorView)
    requires
        state.wf(),
        state.phase is Resolving,
    ensures
        ({
            let next = state.stepped(
                Event::Reply(Reply::ConflictResolved(Resolution::Skip)),
            ).0;
            &&& next.state_of(state.index) == ActionState::Skipped
            &&& next.notes[state.index] == Note::SkippedConflict
            &&& (next.request() is PollStop || next.request() is Finish)
        }),
{
}

/// A state of an action only moves forward: what is over stays as it ended.
pub proof fn law_past_actions_stay(state: ExecutorView, event: Event, i: int)
    requires
        state.wf(),
        0 <= i < state.index,
    ensures
        state.stepped(event).0.state_of(i) == state.state_of(i),
{
}

/// The paths of the first `upto` actions that ended as skipped conflicts.
pub open spec fn skipped_among(actions: Seq<ActionView>, notes: Seq<Note>, upto: int) -> Seq<
    PathView,
>
    decreases upto,
{
    if upto <= 0 {
        Seq::empty()
    } else {
        let before = skipped_among(actions, notes, upto - 1);
        if notes[upto - 1] == Note::SkippedConflict {
            before.push(actions[upto - 1].path)
        } else {
            before
        }
    }
}

/// Writes `processed` of `total` bytes as a fraction.
pub fn progress_fraction(processed: u64, total: u64) -> (fraction: Fraction)
    ensures
        fraction == fraction_of(processed, total),
        fraction.wf(),
{
    if total == 0 {
        Fraction { done: 0, total: 1 }
    } else if processed > total {
        Fraction { done: total, total }
    } else {
        Fraction { done: processed, total }
    }
}

/// The side on which an action of the given kind works.
pub fn action_side(kind: ActionKind) -> (side: Side)
    ensures
        side == side_of(kind),
{
    match kind {
        ActionKind::LocalToRemote => Side::Local,
        ActionKind::RemoteToLocal => Side::Remote,
        ActionKind::DeleteLocal => Side::Local,
        ActionKind::DeleteRemote => Side::Remote,
        ActionKind::CreateLocalDir => Side::Local,
        ActionKind::CreateRemoteDir => Side::Remote,
        ActionKind::DeleteLocalDir => Side::Local,
        ActionKind::DeleteRemoteDir => Side::Remote,
        ActionKind::Conflict => Side::Local,
    }
}

fn note_when_done(kind: ActionKind) -> (note: Note)
    ensures
        note == done_note(kind),
{
    match kind {
        ActionKind::LocalToRemote => Note::CopiedToRemote,
        ActionKind::RemoteToLocal => Note::CopiedToLocal,
        ActionKind::DeleteLocal => Note::DeletedLocalFile,
        ActionKind::DeleteRemote => Note::DeletedRemoteFile,
        ActionKind::CreateLocalDir => Note::CreatedLocalDir,
        ActionKind::CreateRemoteDir => Note::CreatedRemoteDir,
        ActionKind::DeleteLocalDir => Note::DeletedLocalDir,
        ActionKind::DeleteRemoteDir => Note::DeletedRemoteDir,
        ActionKind::Conflict => Note::KeptLocal,
    }
}

fn note_when_kept(kind: ActionKind) -> (note: Note)
    ensures
        note == kept_note(kind),
{
    match kind {
        ActionKind::DeleteLocalDir => Note::KeptDir,
        ActionKind::DeleteRemoteDir => Note::KeptDir,
        _ => Note::KeptFile,
    }
}

/// What the engine does with an event, before it is applied to the state.
#[derive(Clone, Copy)]
enum Move {
    Stay,
    Halt(RunOutcome),
    Start,
    Measured(u64),
    Enter(Phase),
    Route(u64),
    Conclude(Note),
}

/// The engine that carries out a plan. It holds the plan, how far the run
/// has come, and what became of each action that is over.
pub struct Executor {
    plan: Vec<SyncAction>,
    total: u64,
    index: usize,
    processed: u64,
    size: u64,
    source: u64,
    phase: Phase,
    notes: Vec<Note>,
    interrupted: bool,
}

impl View for Executor {
    type V = ExecutorView;

    closed spec fn view(&self) -> ExecutorView {
        ExecutorView {
            kinds: kinds_of(self.plan@),
            total: self.total,
            index: self.index as int,
            processed: self.processed,
            size: self.size,
            source: self.source,
            phase: self.phase,
            notes: self.notes@,
            interrupted: self.interrupted,
        }
    }
}

impl Executor {
    /// The state is one that a run can reach.
    #[verifier::type_invariant]
    pub closed spec fn wf(&self) -> bool {
        self@.wf()
    }

    /// The actions of the plan that is carried out.
    pub closed spec fn planned(&self) -> Seq<ActionView> {
        action_views(self.plan@)
    }

    /// Takes up a plan. A plan without actions is complete at once.
    pub fn new(plan: SyncPlan) -> (executor: Self)
        ensures
            executor@ == initial(kinds_of(plan.actions@), plan.total_size),
            executor.planned() == action_views(plan.actions@),
    {
        let phase = if plan.actions.len() == 0 {
            Phase::Finished(RunOutcome::Completed)
        } else {
            Phase::Polling
        };
        Executor {
            plan: plan.actions,
            total: plan.total_size,
            index: 0,
            processed: 0,
            size: 0,
            source: 0,
            phase,
            notes: Vec::new(),
            interrupted: false,
        }
    }

    /// The plan that is carried out.
    pub fn actions(&self) -> (actions: &Vec<SyncAction>)
        ensures
            action_views(actions@) == self.planned(),
            kinds_of(actions@) == self@.kinds,
    {
        &self.plan
    }

    /// The number of the current action.
    pub fn position(&self) -> (index: usize)
        ensures
            index == self@.index,
    {
        self.index
    }

    /// The bytes of the actions that are over.
    pub fn processed(&self) -> (bytes: u64)
        ensures
            bytes == self@.processed,
    {
        self.processed
    }

    /// The bytes that the plan stands for.
    pub fn total(&self) -> (bytes: u64)
        ensures
            bytes == self@.total,
    {
        self.total
    }

    /// How the run ended, once it has.
    pub fn outcome(&self) -> (outcome: Option<RunOutcome>)
        ensures
            match outcome {
                Some(o) => self@.phase == Phase::Finished(o),
                None => self@.phase !is Finished,
            },
    {
        match self.phase {
            Phase::Finished(o) => Some(o),
            _ => None,
        }
    }

    /// What the engine asks for now.
    pub fn pending(&self) -> (request: Request)
        ensures
            request == self@.request(),
    {
        proof {
            use_type_invariant(self);
        }
        match self.phase {
            Phase::Polling => Request::PollStop,
            Phase::Measuring => Request::Measure {
                side: action_side(self.plan[self.index].kind()),
            },
            Phase::Confirming => Request::AwaitReply,
            Phase::Resolving => Request::AwaitReply,
            Phase::Routing => Request::Measure { side: Side::Remote },
            Phase::Working(note) => match note {
                Note::CopiedToRemote => Request::Copy {
                    from: Side::Local,
                    method: copy_method(self.source),
                },
                Note::KeptLocal => Request::Copy {
                    from: Side::Local,
                    method: copy_method(self.source),
                },
                Note::CopiedToLocal => Request::Copy {
                    from: Side::Remote,
                    method: copy_method(self.source),
                },
                Note::KeptRemote => Request::Copy {
                    from: Side::Remote,
                    method: copy_method(self.source),
                },
                Note::DeletedLocalFile => Request::RemoveFile { side: Side::Local },
                Note::DeletedRemoteFile => Request::RemoveFile { side: Side::Remote },
                Note::CreatedLocalDir => Request::CreateDir { side: Side::Local },
                Note::CreatedRemoteDir => Request::CreateDir { side: Side::Remote },
                Note::DeletedLocalDir => Request::RemoveDir { side: Side::Local },
                Note::DeletedRemoteDir => Request::RemoveDir { side: Side::Remote },
                _ => Request::PollStop,
            },
            Phase::Finished(outcome) => Request::Finish(outcome),
        }
    }

    /// Where the action with the given number stands.
    pub fn action_state(&self, i: usize) -> (state: ActionState)
        ensures
            state == self@.state_of(i as int),
    {
        proof {
            use_type_invariant(self);
        }
        if i < self.index {
            match self.notes[i] {
                Note::SkippedConflict => ActionState::Skipped,
                Note::KeptFile => ActionState::Canceled,
                Note::KeptDir => ActionState::Canceled,
                _ => ActionState::Completed,
            }
        } else if i == self.index && self.interrupted {
            ActionState::Canceled
        } else if i == self.index {
            match self.phase {
                Phase::Finished(_) => ActionState::Pending,
                Phase::Polling => ActionState::Pending,
                _ => ActionState::Executing,
            }
        } else {
            ActionState::Pending
        }
    }

    /// The paths of the conflicts that the caller chose to skip, in the
    /// order of the plan.
    pub fn skipped_paths(&self) -> (paths: Vec<SyncPath>)
        ensures
            path_views(paths@) == skipped_among(self.planned(), self@.notes, self@.index),
    {
        proof {
            use_type_invariant(self);
        }
        let mut paths: Vec<SyncPath> = Vec::new();
        let mut i: usize = 0;
        assert(path_views(paths@) =~= skipped_among(self.planned(), self@.notes, 0));
        while i < self.index
            invariant
                i <= self.index,
                self.index == self.notes.len(),
                self.index <= self.plan.len(),
                path_views(paths@) == skipped_among(self.planned(), self@.notes, i as int),
            decreases self.index - i,
        {
            let ghost before = path_views(paths@);
            match self.notes[i] {
                Note::SkippedConflict => {
                    paths.push(self.plan[i].path().clone());
                    assert(path_views(paths@) =~= before.push(self.planned()[i as int].path));
                },
                _ => {},
            }
            i += 1;
        }
        paths
    }

    /// What the engine does with `event` in its present state.
    fn choose_move(&self, event: Event) -> (chosen: Move)
        ensures
            self@.phase is Finished ==> chosen is Stay,
            !(chosen is Stay) ==> self@.index < self@.kinds.len(),
            ({
                let old = self@;
                let target = old.stepped(event);
                match chosen {
                    Move::Stay => target == (old, Seq::<Emit>::empty()),
                    Move::Halt(outcome) => target == (old.halted(outcome), Seq::<Emit>::empty()),
                    Move::Start => target == old.started(),
                    Move::Measured(size) => target == old.measured(size),
                    Move::Enter(phase) => target == (
                        ExecutorView { phase, ..old },
                        Seq::<Emit>::empty(),
                    ),
                    Move::Route(size) => target == (
                        ExecutorView { phase: Phase::Working(Note::KeptRemote), source: size, ..old },
                        Seq::<Emit>::empty(),
                    ),
                    Move::Conclude(note) => target == old.concluded(note),
                }
            }),
    {
        proof {
            use_type_invariant(self);
        }
        if let Phase::Finished(_) = self.phase {
            return Move::Stay;
        }
        let kind = self.plan[self.index].kind();
        match event {
            Event::Failed => Move::Halt(RunOutcome::Failed),
            Event::Disconnected => Move::Halt(RunOutcome::Stopped),
            Event::Reply(Reply::Stop) => Move::Halt(RunOutcome::Stopped),
            Event::Polled { stop } => match self.phase {
                Phase::Polling => if stop {
                    Move::Halt(RunOutcome::Stopped)
                } else {
                    Move::Start
                },
                _ => Move::Stay,
            },
            Event::Measured { size } => match self.phase {
                Phase::Measuring => Move::Measured(size),
                Phase::Routing => Move::Route(size),
                _ => Move::Stay,
            },
            Event::Reply(Reply::DeletionConfirmed(yes)) => match self.phase {
                Phase::Confirming => if yes {
                    Move::Enter(Phase::Working(note_when_done(kind)))
                } else {
                    Move::Conclude(note_when_kept(kind))
                },
                _ => Move::Stay,
            },
            Event::Reply(Reply::ConflictResolved(resolution)) => match self.phase {
                Phase::Resolving => match resolution {
                    Resolution::KeepLocal => Move::Enter(Phase::Working(Note::KeptLocal)),
                    Resolution::KeepRemote => Move::Enter(Phase::Routing),
                    Resolution::Skip => Move::Conclude(Note::SkippedConflict),
                },
                _ => Move::Stay,
            },
            Event::Reply(Reply::Other) => Move::Stay,
            Event::Timeout => Move::Stay,
            Event::Done => match self.phase {
                Phase::Working(note) => Move::Conclude(note),
                _ => Move::Stay,
            },
            Event::CopyStopped => match self.phase {
                Phase::Working(_) => Move::Halt(RunOutcome::Stopped),
                _ => Move::Stay,
            },
        }
    }

    /// Takes in what happened outside, and says what the engine has to say
    /// about it. What it asks for next is `pending` of the new state.
    pub fn step(self, event: Event) -> (next: (Executor, Vec<Emit>))
        ensures
            (next.0@, next.1@) == self@.stepped(event),
            next.0.planned() == self.planned(),
    {
        proof {
            use_type_invariant(&self);
            law_step_keeps_wf(self@, event);
        }
        let chosen = self.choose_move(event);
        let ghost old = self@;
        let mut said: Vec<Emit> = Vec::new();
        if let Move::Stay = chosen {
            return (self, said);
        }
        let kind = self.plan[self.index].kind();
        let Executor { plan, total, index, processed, size, source, phase, notes, interrupted } =
            self;
        let mut notes = notes;
        let progress = Emit::Progress { index, fraction: progress_fraction(processed, total) };
        let next = match chosen {
            Move::Stay => Executor {
                plan,
                total,
                index,
                processed,
                size,
                source,
                phase,
                notes,
                interrupted,
            },
            Move::Halt(outcome) => {
                let in_the_middle = match phase {
                    Phase::Polling => false,
                    _ => true,
                };
                Executor {
                    plan,
                    total,
                    index,
                    processed,
                    size,
                    source,
                    phase: Phase::Finished(outcome),
                    notes,
                    interrupted: in_the_middle,
                }
            },
            Move::Start => {
                match kind {
                    ActionKind::LocalToRemote | ActionKind::RemoteToLocal | ActionKind::Conflict => {
                        Executor {
                            plan,
                            total,
                            index,
                            processed,
                            size,
                            source,
                            phase: Phase::Measuring,
                            notes,
                            interrupted,
                        }
                    },
                    ActionKind::DeleteLocal
                    | ActionKind::DeleteRemote
                    | ActionKind::DeleteLocalDir
                    | ActionKind::DeleteRemoteDir => {
                        said.push(progress);
                        said.push(Emit::ConfirmDeletion { index, side: action_side(kind) });
                        Executor {
                            plan,
                            total,
                            index,
                            processed,
                            size: 0,
                            source: 0,
                            phase: Phase::Confirming,
                            notes,
                            interrupted,
                        }
                    },
                    ActionKind::CreateLocalDir | ActionKind::CreateRemoteDir => {
                        said.push(progress);
                        Executor {
                            plan,
                            total,
                            index,
                            processed,
                            size: 0,
                            source: 0,
                            phase: Phase::Working(note_when_done(kind)),
                            notes,
                            interrupted,
                        }
                    },
                }
            },
            Move::Measured(measured) => {
                said.push(progress);
                let phase = match kind {
                    ActionKind::Conflict => {
                        said.push(Emit::AskResolution { index });
                        Phase::Resolving
                    },
                    _ => Phase::Working(note_when_done(kind)),
                };
                Executor {
                    plan,
                    total,
                    index,
                    processed,
                    size: measured,
                    source: measured,
                    phase,
                    notes,
                    interrupted,
                }
            },
            Move::Enter(phase) => Executor {
                plan,
                total,
                index,
                processed,
                size,
                source,
                phase,
                notes,
                interrupted,
            },
            Move::Route(measured) => Executor {
                plan,
                total,
                index,
                processed,
                size,
                source: measured,
                phase: Phase::Working(Note::KeptRemote),
                notes,
                interrupted,
            },
            Move::Conclude(note) => {
                said.push(Emit::Journal { index, note });
                notes.push(note);
                let phase = if index + 1 == plan.len() {
                    Phase::Finished(RunOutcome::Completed)
                } else {
                    Phase::Polling
                };
                Executor {
                    plan,
                    total,
                    index: index + 1,
                    processed: processed.saturating_add(size),
                    size: 0,
                    source: 0,
                    phase,
                    notes,
                    interrupted,
                }
            },
        };
        assert(said@ =~= old.stepped(event).1);
        (next, said)
    }
}

/// What a message that came in is to the engine.
pub open spec fn reply_in(message: MessageView) -> Reply {
    match message {
        MessageView::DeletionConfirmed(yes) => Reply::DeletionConfirmed(yes),
        MessageView::ConflictResolved(resolution) => Reply::ConflictResolved(resolution),
        MessageView::Stop => Reply::Stop,
        _ => Reply::Other,
    }
}

/// Reads a message that came in while the engine waited.
pub fn reply_of(message: &SyncMessage) -> (reply: Reply)
    ensures
        reply == reply_in(message@),
{
    match message {
        SyncMessage::DeletionConfirmed(yes) => Reply::DeletionConfirmed(*yes),
        SyncMessage::ConflictResolved(resolution) => Reply::ConflictResolved(*resolution),
        SyncMessage::Stop => Reply::Stop,
        _ => Reply::Other,
    }
}

/// What a look at the channel found, without waiting.
#[derive(Clone, Copy, Debug, PartialEq, Eq, Structural)]
pub enum Look {
    /// No message is there.
    Empty,
    /// This message was there.
    Message(Reply),
    /// The caller is gone.
    Gone,
}

/// Whether a look at the channel says to stop: the caller asked for it, or
/// the caller is gone, which counts the same.
pub open spec fn look_stops(look: Look) -> bool {
    look == Look::Message(Reply::Stop) || look is Gone
}

/// Whether a look at the channel says to stop.
pub fn stops(look: Look) -> (stop: bool)
    ensures
        stop == look_stops(look),
{
    match look {
        Look::Message(Reply::Stop) => true,
        Look::Gone => true,
        _ => false,
    }
}

/// What a look at the channel before an action is to the engine.
pub open spec fn polled_as(look: Look) -> Event {
    if look is Gone {
        Event::Disconnected
    } else {
        Event::Polled { stop: look == Look::Message(Reply::Stop) }
    }
}

/// Reports a look at the channel to the engine.
pub fn polled(look: Look) -> (event: Event)
    ensures
        event == polled_as(look),
{
    match look {
        Look::Gone => Event::Disconnected,
        Look::Message(Reply::Stop) => Event::Polled { stop: true },
        _ => Event::Polled { stop: false },
    }
}

/// The test for the paths that lie strictly below `top`.
pub open spec fn lies_below(top: PathView) -> spec_fn(PathView) -> bool {
    |path: PathView| is_ancestor(top, path)
}

/// The directories that the creation of `top` brings: `top` itself, and
/// every directory that the tree to be mirrored holds below it.
pub open spec fn created_for(source: Seq<PathView>, top: PathView) -> Seq<PathView> {
    seq![top] + source.filter(lies_below(top))
}

/// Lists the directories to create for an action that creates `top`, given
/// the tree that holds `top` already: `top` first, then what lies below it.
pub fn created_with(source: &SyncData, top: &SyncPath) -> (directories: Vec<SyncPath>)
    ensures
        path_views(directories@) == created_for(source@.directories, top@),
{
    let all_dirs = source.directories();
    let ghost all = source@.directories;
    let mut directories: Vec<SyncPath> = Vec::new();
    directories.push(top.clone());
    let mut i: usize = 0;
    assert(all.take(0) =~= Seq::<PathView>::empty());
    proof {
        reveal(Seq::filter);
    }
    assert(path_views(directories@) =~= seq![top@] + all.take(0).filter(lies_below(top@)));
    while i < all_dirs.len()
        invariant
            i <= all_dirs.len(),
            all == path_views(all_dirs@),
            path_views(directories@) == seq![top@] + all.take(i as int).filter(lies_below(top@)),
        decreases all_dirs.len() - i,
    {
        let ghost before = path_views(directories@);
        proof {
            all.lemma_take_succ_push(i as int);
            all.take(i as int).lemma_filter_push(all[i as int], lies_below(top@));
        }
        if top.depth() < all_dirs[i].depth() && all_dirs[i].starts_with(top) {
            directories.push(all_dirs[i].clone());
            assert(path_views(directories@) =~= before.push(all[i as int]));
        }
        i += 1;
    }
    assert(all.take(all_dirs.len() as int) =~= all);
    directories
}

} // verus!
