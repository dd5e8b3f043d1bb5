use syncu::executor::{Emit, Note};
use syncu::journal::{goes_to_log, render, render_now, write_log_line, write_scan_label};
use syncu::models::{Fraction, Side, SyncAction, SyncMessage};
use syncu::paths::SyncPath;
use syncu::run::Stage;
use syncu::text::{decimal, display};

fn jp(parts: &[&str]) -> SyncPath {
    SyncPath::new(parts.iter().map(|s| s.to_string()).collect())
}

fn sample() -> Vec<SyncAction> {
    vec![
        SyncAction::CreateRemoteDir(jp(&["docs"])),
        SyncAction::LocalToRemote(jp(&["docs", "a.txt"])),
        SyncAction::DeleteLocal(jp(&["old.txt"])),
        SyncAction::Conflict { path: jp(&["c.txt"]) },
        SyncAction::DeleteRemoteDir(jp(&["gone", "deep"])),
    ]
}

#[test]
fn counts_are_written_in_decimal() {
    assert_eq!(decimal(0), "0");
    assert_eq!(decimal(7), "7");
    assert_eq!(decimal(10), "10");
    assert_eq!(decimal(909), "909");
    assert_eq!(decimal(1234567890), "1234567890");
    assert_eq!(decimal(usize::MAX), usize::MAX.to_string());
}

#[test]
fn paths_are_written_with_slashes() {
    assert_eq!(display(&jp(&[])), "");
    assert_eq!(display(&jp(&["a.txt"])), "a.txt");
    assert_eq!(display(&jp(&["docs", "deep", "a.txt"])), "docs/deep/a.txt");
}

#[test]
fn log_lines_begin_with_the_time_of_day() {
    let action = SyncAction::LocalToRemote(jp(&["docs", "a.txt"]));
    assert_eq!(
        write_log_line("12:34:56", Note::CopiedToRemote, &action),
        "[12:34:56] 本地 -> U盘: docs/a.txt"
    );
}

#[test]
fn each_note_has_its_phrase() {
    let a = SyncAction::DeleteLocal(jp(&["f"]));
    let line = |note: Note| write_log_line("00:00:00", note, &a);
    assert_eq!(line(Note::CopiedToLocal), "[00:00:00] U盘 -> 本地: f");
    assert_eq!(line(Note::DeletedLocalFile), "[00:00:00] 删除本地文件: f");
    assert_eq!(line(Note::DeletedRemoteFile), "[00:00:00] 删除U盘文件: f");
    assert_eq!(line(Note::KeptFile), "[00:00:00] 取消删除: f");
    assert_eq!(line(Note::KeptLocal), "[00:00:00] 冲突解决 (采用本地): f");
    assert_eq!(line(Note::KeptRemote), "[00:00:00] 冲突解决 (采用U盘): f");
    assert_eq!(line(Note::SkippedConflict), "[00:00:00] 跳过冲突文件: f");
    assert_eq!(line(Note::CreatedLocalDir), "[00:00:00] 创建本地目录: f");
    assert_eq!(line(Note::CreatedRemoteDir), "[00:00:00] 创建U盘目录: f");
    assert_eq!(line(Note::DeletedLocalDir), "[00:00:00] 删除本地目录: f");
    assert_eq!(line(Note::DeletedRemoteDir), "[00:00:00] 删除U盘目录: f");
    assert_eq!(line(Note::KeptDir), "[00:00:00] 取消删除目录: f");
}

#[test]
fn progress_is_rendered_with_place_and_subject() {
    let actions = sample();
    let half = Fraction { done: 1, total: 2 };
    assert_eq!(
        render(&actions, Emit::Progress { index: 1, fraction: half }, "09:00:00"),
        Some(SyncMessage::Progress(half, "(2/5)正在处理: docs/a.txt".to_string()))
    );
    assert_eq!(
        render(&actions, Emit::Progress { index: 0, fraction: half }, "09:00:00"),
        Some(SyncMessage::Progress(half, "(1/5)正在处理: 创建目录: docs".to_string()))
    );
    assert_eq!(
        render(&actions, Emit::Progress { index: 2, fraction: half }, "09:00:00"),
        Some(SyncMessage::Progress(half, "(3/5)正在处理: 删除: old.txt".to_string()))
    );
    assert_eq!(
        render(&actions, Emit::Progress { index: 4, fraction: half }, "09:00:00"),
        Some(SyncMessage::Progress(half, "(5/5)正在处理: 删除目录: gone/deep".to_string()))
    );
}

#[test]
fn requests_name_the_path() {
    let actions = sample();
    assert_eq!(
        render(&actions, Emit::ConfirmDeletion { index: 2, side: Side::Local }, "09:00:00"),
        Some(SyncMessage::ConfirmDeletion(Side::Local, jp(&["old.txt"])))
    );
    assert_eq!(
        render(&actions, Emit::AskResolution { index: 3 }, "09:00:00"),
        Some(SyncMessage::AskForConflictResolution { path: jp(&["c.txt"]) })
    );
}

#[test]
fn journal_is_rendered_as_a_log_message() {
    let actions = sample();
    assert_eq!(
        render(&actions, Emit::Journal { index: 3, note: Note::SkippedConflict }, "23:59:59"),
        Some(SyncMessage::Log("[23:59:59] 跳过冲突文件: c.txt".to_string()))
    );
}

#[test]
fn nothing_is_rendered_for_an_action_that_is_not_there() {
    let actions = sample();
    assert_eq!(render(&actions, Emit::AskResolution { index: 5 }, "t"), None);
    assert_eq!(render(&actions, Emit::Journal { index: 9, note: Note::KeptDir }, "t"), None);
    assert_eq!(render(&vec![], Emit::ConfirmDeletion { index: 0, side: Side::Remote }, "t"), None);
    assert_eq!(
        render(&actions, Emit::Progress { index: 5, fraction: Fraction { done: 0, total: 1 } }, "t"),
        None
    );
}

#[test]
fn only_action_lines_go_to_the_durable_log() {
    assert!(goes_to_log(Emit::Journal { index: 0, note: Note::CopiedToLocal }));
    assert!(!goes_to_log(Emit::AskResolution { index: 0 }));
    assert!(!goes_to_log(Emit::ConfirmDeletion { index: 0, side: Side::Local }));
    assert!(!goes_to_log(Emit::Progress { index: 0, fraction: Fraction { done: 0, total: 1 } }));
}

#[test]
fn line_written_now_carries_a_time_of_day() {
    let actions = sample();
    let message = render_now(&actions, Emit::Journal { index: 1, note: Note::CopiedToRemote });
    let text = match message {
        Some(SyncMessage::Log(text)) => text,
        _ => panic!("a journal entry is a log message"),
    };
    let stamp: Vec<char> = text.chars().take(11).collect();
    assert_eq!(stamp.len(), 11);
    assert_eq!(stamp[0], '[');
    assert_eq!(stamp[3], ':');
    assert_eq!(stamp[6], ':');
    assert_eq!(stamp[9], ']');
    assert_eq!(stamp[10], ' ');
    for i in [1, 2, 4, 5, 7, 8] {
        assert!(stamp[i].is_ascii_digit());
    }
    assert!(text.ends_with("本地 -> U盘: docs/a.txt"));
    assert_eq!(render_now(&actions, Emit::AskResolution { index: 7 }), None);
}

#[test]
fn scan_labels_name_stage_count_and_entry() {
    assert_eq!(write_scan_label(Stage::ScanningLocal, 11, 240, "a.txt"), "扫描本地 (11/240) - a.txt");
    assert_eq!(write_scan_label(Stage::ScanningRemote, 1, 3, "b"), "扫描U盘 (1/3) - b");
    assert_eq!(write_scan_label(Stage::Rescanning, 21, 21, ""), "更新本地元数据 (21/21) - ");
}
