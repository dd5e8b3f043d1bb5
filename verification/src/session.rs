//! The caller's side of a run: what state the caller is in, how it answers
//! the engine's requests, and how one answer can be made to stand for all
//! that follow.

use vstd::prelude::*;
use vstd::string::StrSliceExecFns;
use crate::models::{path_views, Resolution, SyncMessage};
use crate::paths::{within, PathView, SyncPath};

verus! {

/// Whether the caller runs a synchronisation.
#[derive(Clone, Copy, Debug, PartialEq, Eq, Structural)]
pub enum SyncState {
    Idle,
    Syncing,
    /// The caller has asked to stop, and the engine has not yet ended.
    Stopping,
}

/// What the caller sends to the engine.
#[derive(Clone, Copy, Debug, PartialEq, Eq, Structural)]
pub enum Answer {
    DeletionConfirmed(bool),
    ConflictResolved(Resolution),
    Stop,
}

/// A message of the engine, as far as the caller's state depends on it.
#[derive(Clone, Copy, Debug, PartialEq, Eq, Structural)]
pub enum Notice {
    Log,
    ConfirmDeletion,
    AskForConflictResolution,
    Progress,
    Complete,
    Stopped,
    /// A message that the engine does not send.
    Other,
}

/// What the user does.
#[derive(Clone, Copy, Debug, PartialEq, Eq, Structural)]
pub enum UserAction {
    /// Start a run.
    Start,
    /// Ask the run to stop.
    Stop,
    /// Allow the deletion that is asked about.
    Confirm,
    /// Refuse the deletion that is asked about.
    Cancel,
    /// Allow this deletion and all that follow in this run.
    DeleteAll,
    /// Refuse this deletion and all that follow in this run.
    KeepAll,
    /// Settle the conflict that is asked about.
    Resolve(Resolution),
}

/// What follows from what the user did.
#[derive(Clone, Copy, Debug, PartialEq, Eq, Structural)]
pub enum Effect {
    Nothing,
    /// Start the engine on a new run.
    Launch,
    /// Send this to the engine.
    Send(Answer),
}

/// The state of the caller.
#[derive(Clone, Copy, Debug, PartialEq, Eq, Structural)]
pub struct Session {
    pub state: SyncState,
    /// The answer that stands for every deletion of this run, once given.
    pub deletion_choice: Option<bool>,
    /// Whether the user is being asked about a deletion.
    pub asking_deletion: bool,
    /// Whether the user is being asked about a conflict.
    pub asking_resolution: bool,
}

impl Session {
    /// The caller after a message of the engine, and its answer if it has
    /// one ready.
    pub open spec fn noticed(self, notice: Notice) -> (Session, Option<Answer>) {
        match notice {
            Notice::ConfirmDeletion => match self.deletion_choice {
                Some(choice) => (self, Some(Answer::DeletionConfirmed(choice))),
                None => (Session { asking_deletion: true, ..self }, None),
            },
            Notice::AskForConflictResolution => (Session { asking_resolution: true, ..self }, None),
            Notice::Complete => (Session { state: SyncState::Idle, ..self }, None),
            Notice::Stopped => (Session { state: SyncState::Idle, ..self }, None),
            _ => (self, None),
        }
    }

    /// The caller after the user did something, and what follows from it.
    /// `ready` says whether a local folder and a drive are chosen.
    pub open spec fn acted(self, action: UserAction, ready: bool) -> (Session, Effect) {
        match action {
            UserAction::Start => if self.state == SyncState::Idle && ready {
                (
                    Session { state: SyncState::Syncing, deletion_choice: None, ..self },
                    Effect::Launch,
                )
            } else {
                (self, Effect::Nothing)
            },
            UserAction::Stop => if self.state == SyncState::Syncing {
                (Session { state: SyncState::Stopping, ..self }, Effect::Send(Answer::Stop))
            } else {
                (self, Effect::Nothing)
            },
            UserAction::Confirm => if self.asking_deletion {
                (
                    Session { asking_deletion: false, ..self },
                    Effect::Send(Answer::DeletionConfirmed(true)),
                )
            } else {
                (self, Effect::Nothing)
            },
            UserAction::Cancel => if self.asking_deletion {
                (
                    Session { asking_deletion: false, ..self },
                    Effect::Send(Answer::DeletionConfirmed(false)),
                )
            } else {
                (self, Effect::Nothing)
            },
            UserAction::DeleteAll => if self.asking_deletion {
                (
                    Session { asking_deletion: false, deletion_choice: Some(true), ..self },
                    Effect::Send(Answer::DeletionConfirmed(true)),
                )
            } else {
                (self, Effect::Nothing)
            },
            UserAction::KeepAll => if self.asking_deletion {
                (
                    Session { asking_deletion: false, deletion_choice: Some(false), ..self },
                    Effect::Send(Answer::DeletionConfirmed(false)),
                )
            } else {
                (self, Effect::Nothing)
            },
            UserAction::Resolve(resolution) => if self.asking_resolution {
                (
                    Session { asking_resolution: false, ..self },
                    Effect::Send(Answer::ConflictResolved(resolution)),
                )
            } else {
                (self, Effect::Nothing)
            },
        }
    }

    /// Whether the main controls are open to the user: no question is
    /// pending.
    pub open spec fn controls_open(self) -> bool {
        !self.asking_deletion && !self.asking_resolution
    }

    /// The caller before its first run.
    pub fn new() -> (session: Self)
        ensures
            session == (Session {
                state: SyncState::Idle,
                deletion_choice: None,
                asking_deletion: false,
                asking_resolution: false,
            }),
    {
        Session {
            state: SyncState::Idle,
            deletion_choice: None,
            asking_deletion: false,
            asking_resolution: false,
        }
    }

    /// Takes in a message of the engine.
    pub fn notice(self, notice: Notice) -> (next: (Session, Option<Answer>))
        ensures
            next == self.noticed(notice),
    {
        match notice {
            Notice::ConfirmDeletion => match self.deletion_choice {
                Some(choice) => (self, Some(Answer::DeletionConfirmed(choice))),
                None => (
                    Session {
                        state: self.state,
                        deletion_choice: self.deletion_choice,
                        asking_deletion: true,
                        asking_resolution: self.asking_resolution,
                    },
                    None,
                ),
            },
            Notice::AskForConflictResolution => (
                Session {
                    state: self.state,
                    deletion_choice: self.deletion_choice,
                    asking_deletion: self.asking_deletion,
                    asking_resolution: true,
                },
                None,
            ),
            Notice::Complete | Notice::Stopped => (
                Session {
                    state: SyncState::Idle,
                    deletion_choice: self.deletion_choice,
                    asking_deletion: self.asking_deletion,
                    asking_resolution: self.asking_resolution,
                },
                None,
            ),
            _ => (self, None),
        }
    }

    /// Takes in what the user did.
    pub fn act(self, action: UserAction, ready: bool) -> (next: (Session, Effect))
        ensures
            next == self.acted(action, ready),
    {
        let mut next = self;
        let effect = match action {
            UserAction::Start => {
                if self.state == SyncState::Idle && ready {
                    next.state = SyncState::Syncing;
                    next.deletion_choice = None;
                    Effect::Launch
                } else {
                    Effect::Nothing
                }
            },
            UserAction::Stop => {
                if self.state == SyncState::Syncing {
                    next.state = SyncState::Stopping;
                    Effect::Send(Answer::Stop)
                } else {
                    Effect::Nothing
                }
            },
            UserAction::Confirm => {
                if self.asking_deletion {
                    next.asking_deletion = false;
                    Effect::Send(Answer::DeletionConfirmed(true))
                } else {
                    Effect::Nothing
                }
            },
            UserAction::Cancel => {
                if self.asking_deletion {
                    next.asking_deletion = false;
                    Effect::Send(Answer::DeletionConfirmed(false))
                } else {
                    Effect::Nothing
                }
            },
            UserAction::DeleteAll => {
                if self.asking_deletion {
                    next.asking_deletion = false;
                    next.deletion_choice = Some(true);
                    Effect::Send(Answer::DeletionConfirmed(true))
                } else {
                    Effect::Nothing
                }
            },
            UserAction::KeepAll => {
                if self.asking_deletion {
                    next.asking_deletion = false;
                    next.deletion_choice = Some(false);
                    Effect::Send(Answer::DeletionConfirmed(false))
                } else {
                    Effect::Nothing
                }
            },
            UserAction::Resolve(resolution) => {
                if self.asking_resolution {
                    next.asking_resolution = false;
                    Effect::Send(Answer::ConflictResolved(resolution))
                } else {
                    Effect::Nothing
                }
            },
        };
        (next, effect)
    }
}

/// What a message of the engine is to the caller's state.
pub fn classify(message: &SyncMessage) -> (notice: Notice)
    ensures
        notice == match message@ {
            crate::models::MessageView::Log(_) => Notice::Log,
            crate::models::MessageView::ConfirmDeletion(_, _) => Notice::ConfirmDeletion,
            crate::models::MessageView::AskForConflictResolution { .. } =>
                Notice::AskForConflictResolution,
            crate::models::MessageView::Progress(_, _) => Notice::Progress,
            crate::models::MessageView::Complete => Notice::Complete,
            crate::models::MessageView::Stopped => Notice::Stopped,
            _ => Notice::Other,
        },
{
    match message {
        SyncMessage::Log(_) => Notice::Log,
        SyncMessage::ConfirmDeletion(_, _) => Notice::ConfirmDeletion,
        SyncMessage::AskForConflictResolution { .. } => Notice::AskForConflictResolution,
        SyncMessage::Progress(_, _) => Notice::Progress,
        SyncMessage::Complete => Notice::Complete,
        SyncMessage::Stopped => Notice::Stopped,
        _ => Notice::Other,
    }
}

/// Once an answer stands for all deletions, every request to confirm one
/// is answered with it at once, and the user is not asked.
pub proof fn law_blanket_choice_answers(session: Session, choice: bool)
    requires
        session.deletion_choice == Some(choice),
    ensures
        session.noticed(Notice::ConfirmDeletion) == (
            session,
            Some(Answer::DeletionConfirmed(choice)),
        ),
{
}

/// An answer for all is given together with the same answer for the
/// deletion at hand, and is forgotten when the next run starts.
pub proof fn law_blanket_choice_lasts_one_run(session: Session, ready: bool)
    ensures
        session.asking_deletion ==> session.acted(UserAction::DeleteAll, ready) == (
            Session { asking_deletion: false, deletion_choice: Some(true), ..session },
            Effect::Send(Answer::DeletionConfirmed(true)),
        ),
        session.asking_deletion ==> session.acted(UserAction::KeepAll, ready) == (
            Session { asking_deletion: false, deletion_choice: Some(false), ..session },
            Effect::Send(Answer::DeletionConfirmed(false)),
        ),
        session.acted(UserAction::Start, ready).1 is Launch ==> session.acted(
            UserAction::Start,
            ready,
        ).0.deletion_choice is None,
{
}

/// Whether `path` lies on one of `drives`: is one of them, or lies below
/// one.
pub open spec fn on_a_drive(path: PathView, drives: Seq<PathView>) -> bool {
    exists|i: int| 0 <= i < drives.len() && within(path, #[trigger] drives[i])
}

/// Whether a folder lies on one of the drives; such a folder cannot be the
/// local side of a synchronisation.
pub fn lies_on_drive(path: &SyncPath, drives: &Vec<SyncPath>) -> (on: bool)
    ensures
        on == on_a_drive(path@, path_views(drives@)),
{
    let mut i: usize = 0;
    while i < drives.len()
        invariant
            i <= drives.len(),
            forall|k: int| 0 <= k < i ==> !within(path@, #[trigger] path_views(drives@)[k]),
        decreases drives.len() - i,
    {
        if path.starts_with(&drives[i]) {
            assert(within(path@, path_views(drives@)[i as int]));
            return true;
        }
        i += 1;
    }
    false
}

/// The drive that is chosen without asking: the only one, where there is
/// exactly one.
pub fn sole_drive(drives: &Vec<SyncPath>) -> (chosen: Option<SyncPath>)
    ensures
        match chosen {
            Some(drive) => drives@.len() == 1 && drive@ == drives@[0]@,
            None => drives@.len() != 1,
        },
{
    if drives.len() == 1 {
        Some(drives[0].clone())
    } else {
        None
    }
}

/// How a line of the caller's log is shown.
#[derive(Clone, Copy, Debug, PartialEq, Eq, Structural)]
pub enum Tone {
    /// The line reports a failure.
    Failure,
    /// The line reports an action, with its time of day.
    Action,
    Plain,
}

/// How the line `text` is shown: by how it begins.
pub open spec fn tone_of(text: Seq<char>) -> Tone {
    if text.len() >= 2 && text[0] == '错' && text[1] == '误' {
        Tone::Failure
    } else if text.len() >= 1 && text[0] == '[' {
        Tone::Action
    } else {
        Tone::Plain
    }
}

/// Says how a line of the caller's log is shown.
pub fn tone(text: &str) -> (t: Tone)
    ensures
        t == tone_of(text@),
{
    let n = text.unicode_len();
    if n >= 2 && text.get_char(0) == '错' && text.get_char(1) == '误' {
        Tone::Failure
    } else if n >= 1 && text.get_char(0) == '[' {
        Tone::Action
    } else {
        Tone::Plain
    }
}

} // verus!
