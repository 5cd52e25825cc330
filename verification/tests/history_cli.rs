use seedr_dl::gemini::MediaType;
use seedr_dl::history::{HistoryEntry, RenameStatus};
use seedr_dl::history_cli::{discovered_entry, history_has_path, is_video_file, manual_title, manual_year, season_episode};

fn entry(path: &str) -> HistoryEntry {
    HistoryEntry {
        id: "dl_1".into(),
        original_name: "x".into(),
        clean_title: "X".into(),
        file_path: path.into(),
        file_size: 1,
        media_type: MediaType::Movie,
        year: None,
        season: Some(2),
        episode: Some(3),
        downloaded_at: "now".into(),
        rename_status: RenameStatus::Gemini,
    }
}

#[test]
fn video_files_by_extension() {
    assert!(is_video_file("/m/a.mkv"));
    assert!(is_video_file("/m/a.MP4"));
    assert!(is_video_file("b.webm"));
    assert!(is_video_file("c.Avi"));
    assert!(is_video_file("d.mov"));
    assert!(!is_video_file("/m/a.srt"));
    assert!(!is_video_file("/m/mkv"));
    assert!(!is_video_file("/m/.mkv"));
}

#[test]
fn manual_answers() {
    let cur = String::from("Old");
    assert_eq!(manual_title("  New Title \n", &cur), "New Title");
    assert_eq!(manual_title("   ", &cur), "Old");
    assert_eq!(manual_year("\n", Some(1999)), Some(1999));
    assert_eq!(manual_year(" 2004 ", Some(1999)), Some(2004));
    assert_eq!(manual_year("abc", Some(1999)), None);
    assert_eq!(season_episode(&entry("/a")), Some((2, 3)));
    let mut e = entry("/a");
    e.episode = None;
    assert_eq!(season_episode(&e), None);
}

#[test]
fn scan_records() {
    let es = vec![entry("/m/movies/a.mkv"), entry("/m/shows/b.mkv")];
    assert!(history_has_path(&es, "/m/movies/a.mkv"));
    assert!(history_has_path(&es, "/m/movies//a.mkv"));
    assert!(!history_has_path(&es, "/m/movies/c.mkv"));
    let e = discovered_entry(
        "dl_9".into(),
        "The.Office.S02E09.720p.mkv",
        "/m/shows/The Office/Season 02/The.Office.S02E09.720p.mkv",
        "/m/shows",
        2048,
        "2026-01-01 10:00".into(),
    );
    assert_eq!(e.id, "dl_9");
    assert_eq!(e.clean_title, "The Office");
    assert_eq!(e.media_type, MediaType::Show);
    assert_eq!((e.season, e.episode, e.year), (Some(2), Some(9), None));
    assert_eq!(e.rename_status, RenameStatus::RegexFallback);
    assert_eq!(e.file_size, 2048);
    let m = discovered_entry("dl_8".into(), "Heat.1995.mkv", "/m/movies/Heat.1995.mkv", "/m/shows", 1, "t".into());
    assert_eq!(m.media_type, MediaType::Movie);
    assert_eq!(m.year, Some(1995));
    assert_eq!(m.clean_title, "Heat");
}
