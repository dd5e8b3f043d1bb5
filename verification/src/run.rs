//! A run as a whole: what it needs to begin, what its errors mean, the
//! stages it goes through, and what it tells the caller at each of them.

use vstd::prelude::*;
use vstd::string::{StrSliceExecFns, StringExecFns};
use crate::clock::local_time_of_day;
use crate::executor::RunOutcome;
use crate::models::{
    path_views, Fraction, MessageView, SyncData, SyncMessage, TreeView,
};
use crate::paths::{PathView, SyncPath};
use crate::text::{decimal, decimal_digits};

verus! {

/// Why a run cannot begin.
#[derive(Clone, Copy, Debug, PartialEq, Eq, Structural)]
pub enum InputError {
    /// No local folder was chosen.
    NoLocalFolder,
    /// No drive was chosen.
    NoDrive,
    /// The local folder has no name of its own to mirror it under.
    NoFolderName,
}

/// The kinds of failure that a run can meet.
#[derive(Clone, Copy, Debug, PartialEq, Eq, Structural)]
pub enum ErrorKind {
    /// A root is not set or cannot be used.
    Input,
    /// Reading or writing either tree failed.
    Io,
    /// The recorded snapshot cannot be read back.
    Serialization,
    /// The caller cannot be reached.
    Channel,
}

/// What a failure does to the run.
#[derive(Clone, Copy, Debug, PartialEq, Eq, Structural)]
pub enum Disposition {
    /// The run ends at once as failed; what was done stays done.
    Abort,
    /// The run goes on as a first synchronisation, without a baseline.
    NoBaseline,
    /// The run ends as if the caller had asked to stop.
    Stop,
}

/// What a failure of the given kind does to the run.
pub open spec fn disposition_of(kind: ErrorKind) -> Disposition {
    match kind {
        ErrorKind::Input => Disposition::Abort,
        ErrorKind::Io => Disposition::Abort,
        ErrorKind::Serialization => Disposition::NoBaseline,
        ErrorKind::Channel => Disposition::Stop,
    }
}

/// Says what a failure of the given kind does to the run.
pub fn disposition(kind: ErrorKind) -> (d: Disposition)
    ensures
        d == disposition_of(kind),
{
    match kind {
        ErrorKind::Input => Disposition::Abort,
        ErrorKind::Io => Disposition::Abort,
        ErrorKind::Serialization => Disposition::NoBaseline,
        ErrorKind::Channel => Disposition::Stop,
    }
}

/// Whether a component names a file or a directory: it is not empty, it
/// does not stand for the directory itself or the one above, and it holds no
/// separator, as the root of a file system does.
pub open spec fn is_name(component: Seq<char>) -> bool {
    &&& component.len() > 0
    &&& component != "."@
    &&& component != ".."@
    &&& !component.contains('/')
    &&& !component.contains('\\')
}

/// Whether a path has a last component that names something.
pub open spec fn has_name(path: PathView) -> bool {
    path.len() > 0 && is_name(path.last())
}

/// Whether a component names a file or a directory.
pub fn names_something(component: &String) -> (named: bool)
    ensures
        named == is_name(component@),
{
    if *component == String::from_str(".") || *component == String::from_str("..") {
        return false;
    }
    let text = component.as_str();
    let n = text.unicode_len();
    if n == 0 {
        return false;
    }
    let mut i: usize = 0;
    while i < n
        invariant
            i <= n,
            n == text@.len(),
            text@ == component@,
            forall|k: int| 0 <= k < i ==> text@[k] != '/' && text@[k] != '\\',
        decreases n - i,
    {
        let c = text.get_char(i);
        if c == '/' || c == '\\' {
            assert(text@.contains(text@[i as int]));
            return false;
        }
        i += 1;
    }
    true
}

/// Where the mirror of `local` lies on `drive`: under the drive's root, in
/// a directory with the local folder's own name.
pub open spec fn mirror_of(local: PathView, drive: PathView) -> PathView {
    drive.push(local.last())
}

/// Finds the mirror root for a run, or says why the run cannot begin.
pub fn mirror_root(local: Option<&SyncPath>, drive: Option<&SyncPath>) -> (root: Result<
    SyncPath,
    InputError,
>)
    ensures
        match root {
            Ok(path) => local is Some && drive is Some && has_name(local->0@) && path@
                == mirror_of(local->0@, drive->0@),
            Err(InputError::NoLocalFolder) => local is None,
            Err(InputError::NoDrive) => local is Some && drive is None,
            Err(InputError::NoFolderName) => local is Some && drive is Some && !has_name(
                local->0@,
            ),
        },
{
    let local = match local {
        Some(l) => l,
        None => {
            return Err(InputError::NoLocalFolder);
        },
    };
    let drive = match drive {
        Some(d) => d,
        None => {
            return Err(InputError::NoDrive);
        },
    };
    let depth = local.depth();
    if depth == 0 {
        return Err(InputError::NoFolderName);
    }
    let name = &local.components[depth - 1];
    assert(name@ == local@.last());
    if !names_something(name) {
        return Err(InputError::NoFolderName);
    }
    let mut root = drive.clone();
    let ghost before = root@;
    root.components.push(name.clone());
    assert(root@ =~= mirror_of(local@, drive@));
    Ok(root)
}

/// What a run says when it cannot begin.
pub open spec fn input_error_text(error: InputError) -> Seq<char> {
    match error {
        InputError::NoLocalFolder => "未选择本地文件夹"@,
        InputError::NoDrive => "未检测到U盘"@,
        InputError::NoFolderName => "无效的本地文件夹名称"@,
    }
}

/// Says why a run cannot begin.
pub fn describe_input_error(error: InputError) -> (text: String)
    ensures
        text@ == input_error_text(error),
{
    match error {
        InputError::NoLocalFolder => String::from_str("未选择本地文件夹"),
        InputError::NoDrive => String::from_str("未检测到U盘"),
        InputError::NoFolderName => String::from_str("无效的本地文件夹名称"),
    }
}

/// What reading the recorded snapshot brought.
pub enum Loaded {
    /// There is no record: this is the first synchronisation.
    Missing,
    /// There is a record, and it cannot be read.
    Corrupt,
    /// The snapshot of the last synchronisation.
    Snapshot(SyncData),
}

/// The baseline of a run: the recorded snapshot, or the empty snapshot
/// where none can be had.
pub fn baseline(loaded: Loaded) -> (last: SyncData)
    ensures
        match loaded {
            Loaded::Snapshot(data) => last@ == data@,
            _ => last@ == (TreeView { files: Seq::empty(), directories: Seq::empty() }),
        },
{
    match loaded {
        Loaded::Snapshot(data) => data,
        _ => SyncData::new(),
    }
}

/// The snapshot that a run records at its end: the local tree as it is
/// then, without the files whose conflict was skipped, so that each of them
/// comes up again at the next run.
pub fn new_baseline(final_local: SyncData, skipped: &Vec<SyncPath>) -> (recorded: SyncData)
    ensures
        recorded@.files == final_local@.files.filter(
            crate::models::not_among(path_views(skipped@)),
        ),
        recorded@.directories == final_local@.directories,
{
    final_local.without_files(skipped)
}

/// The stages of a run, in their order.
#[derive(Clone, Copy, Debug, PartialEq, Eq, Structural)]
pub enum Stage {
    /// Reading the snapshot of the last synchronisation.
    Loading,
    /// Scanning the local tree.
    ScanningLocal,
    /// Scanning the mirror.
    ScanningRemote,
    /// Comparing the three snapshots.
    Planning,
    /// Carrying out the plan.
    Executing,
    /// Scanning the local tree anew, reading every file.
    Rescanning,
    /// Recording the new snapshot.
    Saving,
    /// The run is over.
    Ended(RunOutcome),
}

/// How a stage came out.
#[derive(Clone, Copy, Debug, PartialEq, Eq, Structural)]
pub enum StageResult {
    Done,
    Stopped,
    Failed,
}

/// The stage that follows `stage` when it is done.
pub open spec fn following(stage: Stage) -> Stage {
    match stage {
        Stage::Loading => Stage::ScanningLocal,
        Stage::ScanningLocal => Stage::ScanningRemote,
        Stage::ScanningRemote => Stage::Planning,
        Stage::Planning => Stage::Executing,
        Stage::Executing => Stage::Rescanning,
        Stage::Rescanning => Stage::Saving,
        Stage::Saving => Stage::Ended(RunOutcome::Completed),
        Stage::Ended(outcome) => Stage::Ended(outcome),
    }
}

/// Whether the stop signal is looked for before the stage begins: before
/// each scan.
pub open spec fn checks_stop(stage: Stage) -> bool {
    stage == Stage::ScanningLocal || stage == Stage::ScanningRemote || stage == Stage::Rescanning
}

/// The stage of a run after `stage` came out as `result`, with the stop
/// signal as it was found after that.
pub open spec fn next_stage_of(stage: Stage, result: StageResult, stop: bool) -> Stage {
    if stage is Ended {
        stage
    } else {
        match result {
            StageResult::Failed => Stage::Ended(RunOutcome::Failed),
            StageResult::Stopped => Stage::Ended(RunOutcome::Stopped),
            StageResult::Done => if checks_stop(following(stage)) && stop {
                Stage::Ended(RunOutcome::Stopped)
            } else {
                following(stage)
            },
        }
    }
}

/// Moves a run on from one stage to the next.
pub fn next_stage(stage: Stage, result: StageResult, stop: bool) -> (next: Stage)
    ensures
        next == next_stage_of(stage, result, stop),
{
    if let Stage::Ended(_) = stage {
        return stage;
    }
    match result {
        StageResult::Failed => Stage::Ended(RunOutcome::Failed),
        StageResult::Stopped => Stage::Ended(RunOutcome::Stopped),
        StageResult::Done => {
            let then = match stage {
                Stage::Loading => Stage::ScanningLocal,
                Stage::ScanningLocal => Stage::ScanningRemote,
                Stage::ScanningRemote => Stage::Planning,
                Stage::Planning => Stage::Executing,
                Stage::Executing => Stage::Rescanning,
                Stage::Rescanning => Stage::Saving,
                Stage::Saving => Stage::Ended(RunOutcome::Completed),
                Stage::Ended(outcome) => Stage::Ended(outcome),
            };
            let checked = match then {
                Stage::ScanningLocal => true,
                Stage::ScanningRemote => true,
                Stage::Rescanning => true,
                _ => false,
            };
            if checked && stop {
                Stage::Ended(RunOutcome::Stopped)
            } else {
                then
            }
        },
    }
}

/// A run ends as completed only by recording the new snapshot: no stage is
/// left out, and a stop or a failure at any stage ends it otherwise.
pub proof fn law_completion_goes_through_saving(stage: Stage, result: StageResult, stop: bool)
    ensures
        next_stage_of(stage, result, stop) == Stage::Ended(RunOutcome::Completed) ==> stage
            == Stage::Ended(RunOutcome::Completed) || (stage == Stage::Saving && result
            == StageResult::Done),
        !(stage is Ended) && result != StageResult::Done ==> next_stage_of(stage, result, stop)
            is Ended && next_stage_of(stage, result, stop) != Stage::Ended(RunOutcome::Completed),
{
}

/// What the caller is told as a stage begins: how far the run is, and what
/// it does; nothing for the stages that report for themselves.
pub open spec fn stage_report(stage: Stage) -> Option<MessageView> {
    match stage {
        Stage::Loading => Some(
            MessageView::Progress(Fraction { done: 0, total: 1 }, "正在加载上次同步记录..."@),
        ),
        Stage::ScanningLocal => Some(
            MessageView::Progress(Fraction { done: 0, total: 1 }, "正在统计本地文件..."@),
        ),
        Stage::ScanningRemote => Some(
            MessageView::Progress(Fraction { done: 0, total: 1 }, "正在统计U盘文件..."@),
        ),
        Stage::Planning => Some(
            MessageView::Progress(Fraction { done: 0, total: 1 }, "正在分析文件差异..."@),
        ),
        Stage::Executing => None,
        Stage::Rescanning => Some(
            MessageView::Progress(Fraction { done: 99, total: 100 }, "正在生成新的同步记录..."@),
        ),
        Stage::Saving => None,
        Stage::Ended(RunOutcome::Completed) => Some(
            MessageView::Progress(Fraction { done: 1, total: 1 }, "同步完成!"@),
        ),
        Stage::Ended(_) => None,
    }
}

/// Writes what the caller is told as a stage begins.
pub fn report_stage(stage: Stage) -> (message: Option<SyncMessage>)
    ensures
        match message {
            Some(m) => stage_report(stage) == Some(m@),
            None => stage_report(stage) is None,
        },
{
    let nothing = Fraction { done: 0, total: 1 };
    match stage {
        Stage::Loading => Some(
            SyncMessage::Progress(nothing, String::from_str("正在加载上次同步记录...")),
        ),
        Stage::ScanningLocal => Some(
            SyncMessage::Progress(nothing, String::from_str("正在统计本地文件...")),
        ),
        Stage::ScanningRemote => Some(
            SyncMessage::Progress(nothing, String::from_str("正在统计U盘文件...")),
        ),
        Stage::Planning => Some(
            SyncMessage::Progress(nothing, String::from_str("正在分析文件差异...")),
        ),
        Stage::Executing => None,
        Stage::Rescanning => Some(
            SyncMessage::Progress(
                Fraction { done: 99, total: 100 },
                String::from_str("正在生成新的同步记录..."),
            ),
        ),
        Stage::Saving => None,
        Stage::Ended(RunOutcome::Completed) => Some(
            SyncMessage::Progress(Fraction { done: 1, total: 1 }, String::from_str("同步完成!")),
        ),
        Stage::Ended(_) => None,
    }
}

/// What the caller's log says of a plan before it is carried out.
pub open spec fn plan_summary(count: nat) -> Seq<char> {
    if count == 0 {
        "未检测到变化."@
    } else {
        "计划执行 "@ + decimal_digits(count) + " 个同步操作..."@
    }
}

/// Writes the line that says how many actions a plan has.
pub fn summarize_plan(count: usize) -> (message: SyncMessage)
    ensures
        message@ == MessageView::Log(plan_summary(count as nat)),
{
    if count == 0 {
        SyncMessage::Log(String::from_str("未检测到变化."))
    } else {
        let mut text = String::from_str("计划执行 ");
        let n = decimal(count);
        text.append(n.as_str());
        text.append(" 个同步操作...");
        assert(text@ =~= plan_summary(count as nat));
        SyncMessage::Log(text)
    }
}

/// The line that says that the caller stopped the run.
pub open spec fn stopped_line(stamp: Seq<char>) -> Seq<char> {
    "["@ + stamp + "] 同步已由用户停止。"@
}

/// The line that says why a run failed.
pub open spec fn failure_line(reason: Seq<char>) -> Seq<char> {
    "错误: "@ + reason
}

/// The last messages of a run: a completed run says so; a stopped run says
/// that it was stopped; a failed run says why, and ends as stopped.
pub open spec fn closing(outcome: RunOutcome, stamp: Seq<char>, reason: Seq<char>) -> Seq<
    MessageView,
> {
    match outcome {
        RunOutcome::Completed => seq![MessageView::Complete],
        RunOutcome::Stopped => seq![MessageView::Log(stopped_line(stamp)), MessageView::Stopped],
        RunOutcome::Failed => seq![MessageView::Log(failure_line(reason)), MessageView::Stopped],
    }
}

/// The values of a sequence of messages.
pub open spec fn message_views(messages: Seq<SyncMessage>) -> Seq<MessageView> {
    Seq::new(messages.len(), |i: int| messages[i]@)
}

/// Writes the last messages of a run, given the time of day and, for a
/// failed run, the reason. The line of a failed run also goes into the
/// durable log.
pub fn close_run(outcome: RunOutcome, stamp: &str, reason: &str) -> (messages: Vec<SyncMessage>)
    ensures
        message_views(messages@) == closing(outcome, stamp@, reason@),
{
    let mut messages: Vec<SyncMessage> = Vec::new();
    match outcome {
        RunOutcome::Completed => {
            messages.push(SyncMessage::Complete);
        },
        RunOutcome::Stopped => {
            let mut line = String::from_str("[");
            line.append(stamp);
            line.append("] 同步已由用户停止。");
            assert(line@ =~= stopped_line(stamp@));
            messages.push(SyncMessage::Log(line));
            messages.push(SyncMessage::Stopped);
        },
        RunOutcome::Failed => {
            let mut line = String::from_str("错误: ");
            line.append(reason);
            assert(line@ =~= failure_line(reason@));
            messages.push(SyncMessage::Log(line));
            messages.push(SyncMessage::Stopped);
        },
    }
    assert(message_views(messages@) =~= closing(outcome, stamp@, reason@));
    messages
}

/// Whether `messages` are the last messages of a run that ended as `outcome`
/// at the time of day `stamp`.
pub open spec fn closes_as(
    outcome: RunOutcome,
    stamp: Seq<char>,
    reason: Seq<char>,
    messages: Seq<MessageView>,
) -> bool {
    closing(outcome, stamp, reason) == messages
}

/// Writes the last messages of a run, with the present time of day.
pub fn close_run_now(outcome: RunOutcome, reason: &str) -> (messages: Vec<SyncMessage>)
    ensures
        exists|stamp: Seq<char>| #[trigger]
            closes_as(outcome, stamp, reason@, message_views(messages@)),
{
    let stamp = local_time_of_day();
    let messages = close_run(outcome, stamp.as_str(), reason);
    assert(closes_as(outcome, stamp@, reason@, message_views(messages@)));
    messages
}

/// Whether the stop signal is to be looked for now that `stage` came out as
/// `result`: where the run goes on to a scan.
pub fn looks_for_stop(stage: Stage, result: StageResult) -> (look: bool)
    ensures
        look == (!(stage is Ended) && result == StageResult::Done && checks_stop(
            following(stage),
        )),
{
    match result {
        StageResult::Done => match stage {
            Stage::Loading => true,
            Stage::ScanningLocal => true,
            Stage::Executing => true,
            _ => false,
        },
        _ => false,
    }
}

} // verus!
