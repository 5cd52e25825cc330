use seedr_dl::attach::eta_line;
use seedr_dl::cli::{apply_config_args, attach_target, login_credentials};
use seedr_dl::config::{auth_file, config_file, home_or_root, Config};
use seedr_dl::history_ui::title_suffixes;
use seedr_dl::seedr::{add_torrent_form, delete_folder_form, login_form, SeedrFile};
use seedr_dl::task::{is_task_record, TaskState};
use seedr_dl::ui::{folders_title, folder_item, popup_margin, storage_figures, storage_label, torrents_panel_height};
use seedr_dl::worker::{worker_args, worker_file_id, worker_log_path, WorkerError};

fn pairs(f: &[(String, String)]) -> Vec<(&str, &str)> {
    f.iter().map(|(k, v)| (k.as_str(), v.as_str())).collect()
}

#[test]
fn storage_gauge_texts() {
    let f = storage_figures(3 * 1_048_576 + 7, 10 * 1_048_576);
    assert_eq!((f.used_mb, f.max_mb, f.free_mb), (3, 10, 7));
    assert_eq!(storage_label(f), "3 MB / 10 MB (7 MB free)");
    let over = storage_figures(20 * 1_048_576, 10 * 1_048_576);
    assert_eq!(over.free_mb, 0);
    assert_eq!(storage_label(storage_figures(0, 0)), "0 MB / 0 MB (0 MB free)");
}

#[test]
fn folder_items_and_panel_sizes() {
    assert_eq!(folder_item(0, "Dune", Some(5 * 1_048_576), true), " ❯ [1] 📁 Dune (5 MB)");
    assert_eq!(folder_item(4, "X", None, false), "   [5] 📁 X (0 MB)");
    assert_eq!(torrents_panel_height(0), 2);
    assert_eq!(torrents_panel_height(3), 5);
    assert_eq!(torrents_panel_height(6), 8);
    assert_eq!(torrents_panel_height(100), 8);
    assert_eq!(torrents_panel_height(70000), 4);
    assert_eq!(popup_margin(65), 17);
    assert_eq!(folders_title(12), " Completed Cloud Items (12) ");
    assert_eq!(popup_margin(25), 37);
}

#[test]
fn worker_setup() {
    let f = |id, ffid| SeedrFile { id, folder_file_id: ffid, name: "a.mkv".into(), size: 1 };
    assert_eq!(worker_file_id(&vec![]), Err(WorkerError::NoFiles));
    assert_eq!(worker_file_id(&vec![f(Some(1), Some(2)), f(Some(3), None)]), Ok(2));
    assert_eq!(worker_file_id(&vec![f(Some(1), None)]), Ok(1));
    assert_eq!(worker_file_id(&vec![f(None, None), f(Some(3), None)]), Err(WorkerError::MissingFileId));
    assert_eq!(worker_log_path("/home/u", 77), "/home/u/.cache/seedr-dl/logs/77.log");
    assert_eq!(worker_args(77), vec!["worker".to_string(), "77".to_string()]);
}

#[test]
fn command_line_decisions() {
    let tasks = vec![
        TaskState::new_downloading(5, 1, "a".into(), "a".into(), 0, 1),
        TaskState::new_downloading(9, 1, "b".into(), "b".into(), 0, 1),
    ];
    assert_eq!(attach_target(Some(42), &tasks), Some(42));
    assert_eq!(attach_target(None, &tasks), Some(5));
    assert_eq!(attach_target(None, &vec![]), None);
    assert_eq!(login_credentials(" me@x.io \n", " pw\n"), Some(("me@x.io".to_string(), "pw".to_string())));
    assert_eq!(login_credentials("  ", "pw"), None);
    assert_eq!(login_credentials("me", "\n"), None);
}

#[test]
fn config_command() {
    let mut c = Config::with_home("/h");
    assert!(apply_config_args(&mut c, None, None, false));
    assert!(apply_config_args(&mut c, Some("k".into()), None, true));
    assert!(c.gemini_api_key.is_none());
    assert!(!apply_config_args(&mut c, Some("k".into()), None, false));
    assert_eq!(c.gemini_api_key.as_deref(), Some("k"));
    assert_eq!(c.jellyfin_media_dir, "/h/jellyfin/media");
    assert!(!apply_config_args(&mut c, None, Some("/srv/media".into()), false));
    assert_eq!(c.jellyfin_media_dir, "/srv/media");
    assert_eq!(c.gemini_api_key.as_deref(), Some("k"));
    assert_eq!(home_or_root(Some("/home/z".into())), "/home/z");
    assert_eq!(home_or_root(None), "/root");
    assert_eq!(config_file("/home/z"), "/home/z/.config/seedr-dl/config.json");
    assert_eq!(auth_file("/home/z"), "/home/z/.config/seedr-dl/auth.json");
}

#[test]
fn seedr_forms() {
    assert_eq!(
        pairs(&login_form("me", "pw")),
        vec![("grant_type", "password"), ("client_id", "seedr_chrome"), ("type", "login"), ("username", "me"), ("password", "pw")]
    );
    assert_eq!(
        pairs(&add_torrent_form("magnet:?xt=1", "T")),
        vec![("func", "add_torrent"), ("torrent_magnet", "magnet:?xt=1"), ("access_token", "T")]
    );
    assert_eq!(
        pairs(&delete_folder_form(12, "T")),
        vec![("func", "delete"), ("delete_arr", r#"[{"type":"folder","id":12}]"#), ("access_token", "T")]
    );
}

#[test]
fn small_texts() {
    assert_eq!(eta_line(125), " ETA:      2m 5s remaining");
    assert_eq!(eta_line(0), " ETA:      0m 0s remaining");
    assert_eq!(title_suffixes(Some(1999), Some(1), Some(2)), " (1999) S01E02");
    assert_eq!(title_suffixes(None, Some(1), None), "");
    assert!(is_task_record("/c/tasks/12.json"));
    assert!(!is_task_record("/c/tasks/12.json.tmp"));
    assert!(!is_task_record("/c/tasks/json"));
}
