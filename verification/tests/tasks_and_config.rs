use seedr_dl::config::{cache_dir, config_dir, default_download_threads, downloads_dir, get_gemini_key, Config};
use seedr_dl::organizer::organize_target;
use seedr_dl::gemini::{parse_with_regex, MediaInfo, MediaType};
use seedr_dl::paths::join_path;
use seedr_dl::task::{collect_active_tasks, proc_path, task_file_path, task_finished, tasks_dir, TaskState, TaskStatus};

fn task(folder_id: u64, name: &str) -> TaskState {
    TaskState::new_downloading(folder_id, 100, name.to_string(), format!("{name}.mkv"), 0, 10)
}

#[test]
fn paths_join_like_unix_paths() {
    assert_eq!(join_path("/a", "b"), "/a/b");
    assert_eq!(join_path("/a/", "b"), "/a/b");
    assert_eq!(join_path("", "b"), "b");
    assert_eq!(join_path("/a", "/etc"), "/etc");
}

#[test]
fn config_locations() {
    assert_eq!(config_dir("/home/u"), "/home/u/.config/seedr-dl");
    assert_eq!(cache_dir("/home/u"), "/home/u/.cache/seedr-dl");
    assert_eq!(downloads_dir("/home/u"), "/home/u/.cache/seedr-dl/downloads");
    assert_eq!(tasks_dir("/home/u"), "/home/u/.cache/seedr-dl/tasks");
    assert_eq!(task_file_path("/home/u", 981), "/home/u/.cache/seedr-dl/tasks/981.json");
    assert_eq!(proc_path(4242), "/proc/4242");
}

#[test]
fn default_config() {
    let c = Config::with_home("/home/u");
    assert_eq!(c.jellyfin_media_dir, "/home/u/jellyfin/media");
    assert!(c.gemini_api_key.is_none());
    assert!(!c.delete_after_download);
    assert_eq!(c.download_threads, 8);
    assert_eq!(default_download_threads(), 8);
}

#[test]
fn gemini_key_choice() {
    let mut c = Config::with_home("/h");
    assert_eq!(get_gemini_key(Some("  env-key \n".into()), &c), Some("env-key".to_string()));
    assert_eq!(get_gemini_key(None, &c), None);
    c.gemini_api_key = Some(" cfg ".into());
    assert_eq!(get_gemini_key(Some("   ".into()), &c), Some(" cfg ".to_string()));
    assert_eq!(get_gemini_key(Some("e".into()), &c), Some("e".to_string()));
    c.gemini_api_key = Some("  ".into());
    assert_eq!(get_gemini_key(None, &c), None);
}

#[test]
fn task_lifecycle() {
    let mut t = task(7, "F");
    assert_eq!(t.status, TaskStatus::Downloading);
    assert_eq!((t.speed_bps, t.eta_seconds), (0, 0));
    assert!(t.error.is_none());
    t.record_progress(5, 10, 2, 3);
    assert_eq!((t.downloaded_bytes, t.total_bytes, t.speed_bps, t.eta_seconds), (5, 10, 2, 3));
    t.set_status(TaskStatus::Organizing);
    assert_eq!(t.status, TaskStatus::Organizing);
    assert!(!task_finished(t.status));
    t.mark_failed("boom".into());
    assert_eq!(t.status, TaskStatus::Failed);
    assert_eq!(t.error.as_deref(), Some("boom"));
    assert!(task_finished(t.status));
    assert!(task_finished(TaskStatus::Completed));
    assert!(!task_finished(TaskStatus::Downloading));
}

#[test]
fn active_tasks_are_live_and_sorted_stably() {
    let found = vec![task(30, "c"), task(10, "a"), task(20, "dead"), task(10, "a2"), task(5, "z")];
    let alive = vec![true, true, false, true];
    let r = collect_active_tasks(found, &alive);
    let names: Vec<&str> = r.iter().map(|t| t.folder_name.as_str()).collect();
    assert_eq!(names, vec!["z", "a", "a2", "c"]);
    assert!(collect_active_tasks(Vec::new(), &Vec::new()).is_empty());
}

#[test]
fn organizer_targets() {
    let info = parse_with_regex("Dune.Part.Two.2024.2160p.mkv");
    let (dir, file) = organize_target("/media", &info);
    assert_eq!(dir, "/media/movies/Dune Part Two (2024)");
    assert_eq!(file, "/media/movies/Dune Part Two (2024)/Dune Part Two (2024).mkv");
    let show = MediaInfo {
        media_type: MediaType::Show,
        title: "X".into(),
        year: None,
        season: Some(1),
        episode: Some(2),
        relative_folder: "shows/X/Season 01".into(),
        clean_filename: "X - S01E02.mkv".into(),
    };
    let (dir, file) = organize_target("/m/", &show);
    assert_eq!(dir, "/m/shows/X/Season 01");
    assert_eq!(file, "/m/shows/X/Season 01/X - S01E02.mkv");
}
