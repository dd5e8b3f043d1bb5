//! The words of the engine: the label of a progress report, the requests to
//! the caller, and the line that each action leaves in the log.

use vstd::prelude::*;
use vstd::string::StringExecFns;
use crate::clock::local_time_of_day;
use crate::executor::{Emit, Note};
use crate::run::Stage;
use crate::models::{
    action_views, ActionKind, ActionView, MessageView, SyncAction, SyncMessage,
};
use crate::text::{decimal, decimal_digits, display, joined};

verus! {

/// What the log says of an action, before the path.
pub open spec fn phrase(note: Note) -> Seq<char> {
    match note {
        Note::CopiedToRemote => "本地 -> U盘: "@,
        Note::CopiedToLocal => "U盘 -> 本地: "@,
        Note::DeletedLocalFile => "删除本地文件: "@,
        Note::DeletedRemoteFile => "删除U盘文件: "@,
        Note::KeptFile => "取消删除: "@,
        Note::KeptLocal => "冲突解决 (采用本地): "@,
        Note::KeptRemote => "冲突解决 (采用U盘): "@,
        Note::SkippedConflict => "跳过冲突文件: "@,
        Note::CreatedLocalDir => "创建本地目录: "@,
        Note::CreatedRemoteDir => "创建U盘目录: "@,
        Note::DeletedLocalDir => "删除本地目录: "@,
        Note::DeletedRemoteDir => "删除U盘目录: "@,
        Note::KeptDir => "取消删除目录: "@,
    }
}

/// What a progress label says of an action, before the path.
pub open spec fn subject_prefix(kind: ActionKind) -> Seq<char> {
    match kind {
        ActionKind::DeleteLocal => "删除: "@,
        ActionKind::DeleteRemote => "删除: "@,
        ActionKind::CreateLocalDir => "创建目录: "@,
        ActionKind::CreateRemoteDir => "创建目录: "@,
        ActionKind::DeleteLocalDir => "删除目录: "@,
        ActionKind::DeleteRemoteDir => "删除目录: "@,
        _ => ""@,
    }
}

/// The line that an action leaves in the log: the time of day in square
/// brackets, what became of the action, and its path.
pub open spec fn log_line(stamp: Seq<char>, note: Note, action: ActionView) -> Seq<char> {
    "["@ + stamp + "] "@ + phrase(note) + joined(action.path)
}

/// The label of the progress report for the action with number `index` of
/// `count`: its place in the plan, counted from one, and what it is about.
pub open spec fn progress_label(index: nat, count: nat, action: ActionView) -> Seq<char> {
    "("@ + decimal_digits(index + 1) + "/"@ + decimal_digits(count) + ")正在处理: "@
        + subject_prefix(action.kind) + joined(action.path)
}

/// The message that `emit` stands for, in a run of `actions` at the time of
/// day `stamp`; none where `emit` speaks of an action that the plan does
/// not have.
pub open spec fn rendered(actions: Seq<ActionView>, emit: Emit, stamp: Seq<char>) -> Option<
    MessageView,
> {
    match emit {
        Emit::Progress { index, fraction } => if index < actions.len() {
            Some(
                MessageView::Progress(
                    fraction,
                    progress_label(index as nat, actions.len(), actions[index as int]),
                ),
            )
        } else {
            None
        },
        Emit::ConfirmDeletion { index, side } => if index < actions.len() {
            Some(MessageView::ConfirmDeletion(side, actions[index as int].path))
        } else {
            None
        },
        Emit::AskResolution { index } => if index < actions.len() {
            Some(MessageView::AskForConflictResolution { path: actions[index as int].path })
        } else {
            None
        },
        Emit::Journal { index, note } => if index < actions.len() {
            Some(MessageView::Log(log_line(stamp, note, actions[index as int])))
        } else {
            None
        },
    }
}

/// Whether the text of the message for `emit` also goes into the durable
/// log.
pub open spec fn is_durable(emit: Emit) -> bool {
    emit is Journal
}

/// Whether the text of the message for `emit` also goes into the durable
/// log: the line of an action does, a report or a request does not.
pub fn goes_to_log(emit: Emit) -> (durable: bool)
    ensures
        durable == is_durable(emit),
{
    match emit {
        Emit::Journal { .. } => true,
        _ => false,
    }
}

fn phrase_text(note: Note) -> (text: &'static str)
    ensures
        text@ == phrase(note),
{
    match note {
        Note::CopiedToRemote => "本地 -> U盘: ",
        Note::CopiedToLocal => "U盘 -> 本地: ",
        Note::DeletedLocalFile => "删除本地文件: ",
        Note::DeletedRemoteFile => "删除U盘文件: ",
        Note::KeptFile => "取消删除: ",
        Note::KeptLocal => "冲突解决 (采用本地): ",
        Note::KeptRemote => "冲突解决 (采用U盘): ",
        Note::SkippedConflict => "跳过冲突文件: ",
        Note::CreatedLocalDir => "创建本地目录: ",
        Note::CreatedRemoteDir => "创建U盘目录: ",
        Note::DeletedLocalDir => "删除本地目录: ",
        Note::DeletedRemoteDir => "删除U盘目录: ",
        Note::KeptDir => "取消删除目录: ",
    }
}

fn subject_text(kind: ActionKind) -> (text: &'static str)
    ensures
        text@ == subject_prefix(kind),
{
    match kind {
        ActionKind::DeleteLocal => "删除: ",
        ActionKind::DeleteRemote => "删除: ",
        ActionKind::CreateLocalDir => "创建目录: ",
        ActionKind::CreateRemoteDir => "创建目录: ",
        ActionKind::DeleteLocalDir => "删除目录: ",
        ActionKind::DeleteRemoteDir => "删除目录: ",
        _ => "",
    }
}

/// Writes the line that an action leaves in the log.
pub fn write_log_line(stamp: &str, note: Note, action: &SyncAction) -> (line: String)
    ensures
        line@ == log_line(stamp@, note, action@),
{
    let mut line = String::from_str("[");
    line.append(stamp);
    line.append("] ");
    line.append(phrase_text(note));
    let path = display(action.path());
    line.append(path.as_str());
    assert(line@ =~= log_line(stamp@, note, action@));
    line
}

/// Writes the label of the progress report for the action with number
/// `index` of `count`.
fn write_progress_label(index: usize, count: usize, action: &SyncAction) -> (label: String)
    requires
        index < count,
    ensures
        label@ == progress_label(index as nat, count as nat, action@),
{
    let mut label = String::from_str("(");
    let place = decimal(index + 1);
    label.append(place.as_str());
    label.append("/");
    let of = decimal(count);
    label.append(of.as_str());
    label.append(")正在处理: ");
    label.append(subject_text(action.kind()));
    let path = display(action.path());
    label.append(path.as_str());
    assert(label@ =~= progress_label(index as nat, count as nat, action@));
    label
}

/// Turns what the engine has to say into the message for the caller, given
/// the time of day for the log line.
pub fn render(actions: &Vec<SyncAction>, emit: Emit, stamp: &str) -> (message: Option<SyncMessage>)
    ensures
        match message {
            Some(m) => rendered(action_views(actions@), emit, stamp@) == Some(m@),
            None => rendered(action_views(actions@), emit, stamp@) is None,
        },
{
    match emit {
        Emit::Progress { index, fraction } => {
            if index < actions.len() {
                Some(
                    SyncMessage::Progress(
                        fraction,
                        write_progress_label(index, actions.len(), &actions[index]),
                    ),
                )
            } else {
                None
            }
        },
        Emit::ConfirmDeletion { index, side } => {
            if index < actions.len() {
                Some(SyncMessage::ConfirmDeletion(side, actions[index].path().clone()))
            } else {
                None
            }
        },
        Emit::AskResolution { index } => {
            if index < actions.len() {
                Some(SyncMessage::AskForConflictResolution { path: actions[index].path().clone() })
            } else {
                None
            }
        },
        Emit::Journal { index, note } => {
            if index < actions.len() {
                Some(SyncMessage::Log(write_log_line(stamp, note, &actions[index])))
            } else {
                None
            }
        },
    }
}

/// Whether `message` is what `emit` stands for at the time of day `stamp`.
pub open spec fn renders_as(
    actions: Seq<ActionView>,
    emit: Emit,
    stamp: Seq<char>,
    message: Option<MessageView>,
) -> bool {
    rendered(actions, emit, stamp) == message
}

/// The value of a message that may be absent.
pub open spec fn message_view(message: Option<SyncMessage>) -> Option<MessageView> {
    match message {
        Some(m) => Some(m@),
        None => None,
    }
}

/// Turns what the engine has to say into the message for the caller, with
/// the present time of day in the log line.
pub fn render_now(actions: &Vec<SyncAction>, emit: Emit) -> (message: Option<SyncMessage>)
    ensures
        exists|stamp: Seq<char>| #[trigger]
            renders_as(action_views(actions@), emit, stamp, message_view(message)),
{
    let stamp = local_time_of_day();
    let message = render(actions, emit, stamp.as_str());
    assert(renders_as(action_views(actions@), emit, stamp@, message_view(message)));
    message
}

/// What the label of a scan's progress report begins with, by the stage
/// that scans.
pub open spec fn scan_prefix(stage: Stage) -> Seq<char> {
    match stage {
        Stage::ScanningLocal => "扫描本地"@,
        Stage::ScanningRemote => "扫描U盘"@,
        _ => "更新本地元数据"@,
    }
}

/// The label of a scan's progress report: the stage, how many of how many
/// entries are done, and the name of the entry at hand.
pub open spec fn scan_label(stage: Stage, processed: nat, total: nat, name: Seq<char>) -> Seq<
    char,
> {
    scan_prefix(stage) + " ("@ + decimal_digits(processed) + "/"@ + decimal_digits(total)
        + ") - "@ + name
}

/// Writes the label of a scan's progress report.
pub fn write_scan_label(stage: Stage, processed: usize, total: usize, name: &str) -> (label: String)
    ensures
        label@ == scan_label(stage, processed as nat, total as nat, name@),
{
    let mut label = match stage {
        Stage::ScanningLocal => String::from_str("扫描本地"),
        Stage::ScanningRemote => String::from_str("扫描U盘"),
        _ => String::from_str("更新本地元数据"),
    };
    label.append(" (");
    let done = decimal(processed);
    label.append(done.as_str());
    label.append("/");
    let of = decimal(total);
    label.append(of.as_str());
    label.append(") - ");
    label.append(name);
    assert(label@ =~= scan_label(stage, processed as nat, total as nat, name@));
    label
}

} // verus!
