use seedr_dl::attach::{attach_key, attach_telemetry, AttachAction};
use seedr_dl::manager::{
    delete_cloud_item, is_default_yes, is_delete_confirmation, is_yes, parse_dashboard_command, select_index,
    storage_progress_bar, DashboardCommand,
};
use seedr_dl::modal::{
    delete_media_key, is_confirm_key, magnet_input_key, manual_form_year, manual_rename_key,
    DeleteStep, DialogStep, Key, ManualRenameForm,
};
use seedr_dl::task::{TaskState, TaskStatus};

#[test]
fn dashboard_commands() {
    assert_eq!(parse_dashboard_command(" Q ", 3), DashboardCommand::Quit);
    assert_eq!(parse_dashboard_command("exit", 3), DashboardCommand::Quit);
    assert_eq!(parse_dashboard_command("0", 3), DashboardCommand::Quit);
    assert_eq!(parse_dashboard_command("Refresh", 3), DashboardCommand::Refresh);
    assert_eq!(parse_dashboard_command("a", 3), DashboardCommand::Add);
    assert_eq!(parse_dashboard_command("CLEAN", 3), DashboardCommand::Clean);
    assert_eq!(parse_dashboard_command("dt 2", 3), DashboardCommand::DeleteTorrent("2".into()));
    assert_eq!(parse_dashboard_command("D 1", 3), DashboardCommand::DeleteFolder("1".into()));
    assert_eq!(parse_dashboard_command("rm 3", 3), DashboardCommand::DeleteFolder("3".into()));
    assert_eq!(parse_dashboard_command("2", 3), DashboardCommand::Download(1));
    assert_eq!(parse_dashboard_command("3", 3), DashboardCommand::Download(2));
    assert_eq!(parse_dashboard_command("4", 3), DashboardCommand::InvalidItem);
    assert_eq!(parse_dashboard_command("hello", 3), DashboardCommand::Ignore);
    assert_eq!(parse_dashboard_command("", 3), DashboardCommand::Ignore);
}

#[test]
fn index_arguments() {
    assert_eq!(select_index(" 2 ", 3), Some(1));
    assert_eq!(select_index("1", 1), Some(0));
    assert_eq!(select_index("0", 3), None);
    assert_eq!(select_index("4", 3), None);
    assert_eq!(select_index("x", 3), None);
}

#[test]
fn prompt_answers() {
    assert!(is_yes(" y\n"));
    assert!(is_yes("Y"));
    assert!(!is_yes("yes"));
    assert!(!is_yes(""));
    assert!(is_default_yes("\n"));
    assert!(is_default_yes("YES"));
    assert!(is_default_yes(" y "));
    assert!(!is_default_yes("n"));
    assert!(is_delete_confirmation(" DELETE\n"));
    assert!(!is_delete_confirmation("delete"));
}

#[test]
fn storage_bar_cells() {
    let (f, e) = storage_progress_bar(5, 10);
    assert_eq!(f.chars().count(), 10);
    assert_eq!(e.chars().count(), 10);
    assert!(f.chars().all(|c| c == '█'));
    assert!(e.chars().all(|c| c == '░'));
    let (f, e) = storage_progress_bar(0, 0);
    assert_eq!(f, "");
    assert_eq!(e.chars().count(), 20);
    let (f, e) = storage_progress_bar(30, 10);
    assert_eq!(f.chars().count(), 20);
    assert_eq!(e, "");
    let (f, _) = storage_progress_bar(1, 3);
    assert_eq!(f.chars().count(), 6);
}

#[test]
fn magnet_input_editing() {
    let mut t = String::from("ab");
    assert_eq!(magnet_input_key(&mut t, Key::Char('c')), DialogStep::Editing);
    assert_eq!(t, "abc");
    assert_eq!(magnet_input_key(&mut t, Key::Backspace), DialogStep::Editing);
    assert_eq!(t, "ab");
    assert_eq!(magnet_input_key(&mut t, Key::Tab), DialogStep::Untouched);
    assert_eq!(magnet_input_key(&mut t, Key::Esc), DialogStep::Closed);
    assert_eq!(magnet_input_key(&mut t, Key::Enter), DialogStep::Submitted);
    assert_eq!(t, "ab");
    let mut empty = String::new();
    assert_eq!(magnet_input_key(&mut empty, Key::Backspace), DialogStep::Editing);
    assert_eq!(empty, "");
    assert_eq!(magnet_input_key(&mut empty, Key::Enter), DialogStep::Closed);
}

#[test]
fn confirm_keys() {
    assert!(is_confirm_key(Key::Enter));
    assert!(is_confirm_key(Key::Char('y')));
    assert!(is_confirm_key(Key::Char('Y')));
    assert!(!is_confirm_key(Key::Char('n')));
    assert!(!is_confirm_key(Key::Esc));
}

#[test]
fn manual_rename_form() {
    let mut f = ManualRenameForm { title: "Dun".into(), year: "202".into(), active_field: 0 };
    assert_eq!(manual_rename_key(&mut f, Key::Char('e')), DialogStep::Editing);
    assert_eq!(f.title, "Dune");
    assert_eq!(manual_rename_key(&mut f, Key::Tab), DialogStep::Editing);
    assert_eq!(f.active_field, 1);
    assert_eq!(manual_rename_key(&mut f, Key::Char('x')), DialogStep::Editing);
    assert_eq!(f.year, "202");
    manual_rename_key(&mut f, Key::Char('1'));
    assert_eq!(f.year, "2021");
    manual_rename_key(&mut f, Key::Char('9'));
    assert_eq!(f.year, "2021");
    manual_rename_key(&mut f, Key::Backspace);
    assert_eq!(f.year, "202");
    assert_eq!(f.title, "Dune");
    assert_eq!(manual_rename_key(&mut f, Key::Tab), DialogStep::Editing);
    assert_eq!(f.active_field, 0);
    assert_eq!(manual_rename_key(&mut f, Key::Enter), DialogStep::Submitted);
    assert_eq!(manual_rename_key(&mut f, Key::Esc), DialogStep::Closed);
    assert_eq!(manual_rename_key(&mut f, Key::Other), DialogStep::Untouched);
    let mut odd = ManualRenameForm { title: "T".into(), year: "1".into(), active_field: 5 };
    manual_rename_key(&mut odd, Key::Char('2'));
    assert_eq!((odd.title.as_str(), odd.year.as_str()), ("T", "12"));
    manual_rename_key(&mut odd, Key::Tab);
    assert_eq!(odd.active_field, 0);
    let mut top = ManualRenameForm { title: "T".into(), year: "19".into(), active_field: usize::MAX };
    assert_eq!(manual_rename_key(&mut top, Key::Char('9')), DialogStep::Editing);
    assert_eq!((top.title.as_str(), top.year.as_str(), top.active_field), ("T", "199", usize::MAX));
    assert_eq!(manual_rename_key(&mut top, Key::Backspace), DialogStep::Editing);
    assert_eq!(top.year, "19");
    assert_eq!(manual_form_year(" 2021 "), Some(2021));
    assert_eq!(manual_form_year(""), None);
    assert_eq!(manual_form_year("20x1"), None);
}

#[test]
fn delete_dialog() {
    let mut t = String::new();
    for c in "DELETE".chars() {
        assert_eq!(delete_media_key(&mut t, Key::Char(c)), DeleteStep::Editing);
    }
    assert_eq!(delete_media_key(&mut t, Key::Enter), DeleteStep::Confirmed);
    assert_eq!(delete_media_key(&mut t, Key::Backspace), DeleteStep::Editing);
    assert_eq!(t, "DELET");
    assert_eq!(delete_media_key(&mut t, Key::Enter), DeleteStep::NeedsWord);
    let mut long = String::from("0123456789");
    delete_media_key(&mut long, Key::Char('x'));
    assert_eq!(long, "0123456789");
    assert_eq!(delete_media_key(&mut long, Key::Esc), DeleteStep::Closed);
    assert_eq!(delete_media_key(&mut long, Key::Tab), DeleteStep::Untouched);
}

#[test]
fn attach_monitor() {
    assert_eq!(attach_key(Key::Char('b')), AttachAction::Detach);
    assert_eq!(attach_key(Key::Esc), AttachAction::Detach);
    assert_eq!(attach_key(Key::Char('x')), AttachAction::Cancel);
    assert_eq!(attach_key(Key::Char('q')), AttachAction::Stay);
    assert_eq!(attach_key(Key::Enter), AttachAction::Stay);
    let mut t = TaskState::new_downloading(1, 2, "F".into(), "f.mkv".into(), 5 * 1_048_576 + 1, 10 * 1_048_576);
    t.record_progress(5 * 1_048_576 + 1, 10 * 1_048_576, 100, 125);
    let m = attach_telemetry(&t);
    assert_eq!((m.downloaded_mb, m.total_mb, m.eta_minutes, m.eta_seconds), (5, 10, 2, 5));
    assert_eq!(t.status, TaskStatus::Downloading);
}

#[test]
fn cloud_deletion_after_download() {
    assert!(delete_cloud_item(false, false, " y\n"));
    assert!(!delete_cloud_item(false, true, "\n"));
    assert!(delete_cloud_item(true, true, ""));
    assert!(!delete_cloud_item(true, false, "y"));
}
