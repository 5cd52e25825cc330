use seedr_dl::gemini::MediaType;
use seedr_dl::history::{
    add_history_entry, find_history_entry, generate_id, history_path, history_text_is_blank,
    id_from_millis, largest_id, next_id_number, remove_history_entry, unique_id, unique_id_at,
    update_history_entry, HistoryEntry,
    RenameStatus,
};
use seedr_dl::history_ui::{history_line, history_list_title};

fn entry(id: &str, title: &str) -> HistoryEntry {
    HistoryEntry {
        id: id.to_string(),
        original_name: format!("{title}.mkv"),
        clean_title: title.to_string(),
        file_path: format!("/media/movies/{title}.mkv"),
        file_size: 1024,
        media_type: MediaType::Movie,
        year: Some(2025),
        season: None,
        episode: None,
        downloaded_at: "2026-09-06 00:00".to_string(),
        rename_status: RenameStatus::Gemini,
    }
}

fn ids(es: &[HistoryEntry]) -> Vec<&str> {
    es.iter().map(|e| e.id.as_str()).collect()
}

#[test]
fn test_id_generation() {
    let id = generate_id();
    assert!(id.starts_with("dl_"));
}

#[test]
fn id_is_prefix_and_decimal_millis() {
    assert_eq!(id_from_millis(0), "dl_0");
    assert_eq!(id_from_millis(1767225600123), "dl_1767225600123");
    let id = generate_id();
    assert!(id[3..].chars().all(|c| c.is_ascii_digit()));
    assert!(id.len() > 3);
}

#[test]
fn history_file_lives_in_config_dir() {
    assert_eq!(history_path("/home/ann"), "/home/ann/.config/seedr-dl/history.json");
    assert_eq!(history_path("/root/"), "/root/.config/seedr-dl/history.json");
}

#[test]
fn add_puts_entry_first_and_replaces_same_id() {
    let es = vec![entry("dl_1", "A"), entry("dl_2", "B"), entry("dl_3", "C")];
    let es = add_history_entry(es, entry("dl_2", "B2"));
    assert_eq!(ids(&es), vec!["dl_2", "dl_1", "dl_3"]);
    assert_eq!(es[0].clean_title, "B2");
    let es = add_history_entry(es, entry("dl_9", "N"));
    assert_eq!(ids(&es), vec!["dl_9", "dl_2", "dl_1", "dl_3"]);
}

#[test]
fn add_twice_is_same_as_once() {
    let es = vec![entry("dl_1", "A"), entry("dl_2", "B")];
    let once = add_history_entry(es.clone(), entry("dl_5", "E"));
    let twice = add_history_entry(once.clone(), entry("dl_5", "E"));
    assert_eq!(ids(&once), ids(&twice));
}

#[test]
fn update_replaces_first_match_only() {
    let mut es = vec![entry("dl_1", "A"), entry("dl_2", "B")];
    assert!(update_history_entry(&mut es, entry("dl_2", "Renamed")));
    assert_eq!(es[1].clean_title, "Renamed");
    assert_eq!(es[0].clean_title, "A");
    assert!(!update_history_entry(&mut es, entry("dl_7", "X")));
    assert_eq!(ids(&es), vec!["dl_1", "dl_2"]);
    assert_eq!(es[1].clean_title, "Renamed");
}

#[test]
fn update_after_add_equals_add_of_update() {
    let base = vec![entry("dl_1", "A")];
    let mut a = add_history_entry(base.clone(), entry("dl_4", "D"));
    update_history_entry(&mut a, entry("dl_4", "D2"));
    let b = add_history_entry(base, entry("dl_4", "D2"));
    assert_eq!(ids(&a), ids(&b));
    assert_eq!(a[0].clean_title, b[0].clean_title);
}

#[test]
fn remove_returns_removed_entry() {
    let mut es = vec![entry("dl_1", "A"), entry("dl_2", "B"), entry("dl_3", "C")];
    let r = remove_history_entry(&mut es, "dl_2");
    assert_eq!(r.map(|e| e.clean_title), Some("B".to_string()));
    assert_eq!(ids(&es), vec!["dl_1", "dl_3"]);
    assert!(remove_history_entry(&mut es, "dl_2").is_none());
    assert_eq!(ids(&es), vec!["dl_1", "dl_3"]);
}

#[test]
fn remove_after_add_gives_back_entry() {
    let base = vec![entry("dl_1", "A"), entry("dl_2", "B")];
    let mut es = add_history_entry(base, entry("dl_8", "H"));
    let r = remove_history_entry(&mut es, "dl_8");
    assert_eq!(r.map(|e| e.clean_title), Some("H".to_string()));
    assert_eq!(ids(&es), vec!["dl_1", "dl_2"]);
}

#[test]
fn find_by_full_id_or_trimmed_prefix() {
    let es = vec![entry("dl_100", "A"), entry("dl_123", "B"), entry("dl_200", "C")];
    assert_eq!(find_history_entry(es.clone(), "dl_123").map(|e| e.clean_title), Some("B".to_string()));
    assert_eq!(find_history_entry(es.clone(), "  dl_12 ").map(|e| e.clean_title), Some("B".to_string()));
    assert_eq!(find_history_entry(es.clone(), "dl_1").map(|e| e.clean_title), Some("A".to_string()));
    assert!(find_history_entry(es.clone(), "dl_3").is_none());
    // A blank query is a prefix of every id: the first entry answers.
    assert_eq!(find_history_entry(es, "   ").map(|e| e.clean_title), Some("A".to_string()));
    assert!(find_history_entry(Vec::new(), "dl").is_none());
}

#[test]
fn find_after_add_finds_new_entry() {
    let es = vec![entry("dl_5", "A")];
    let es = add_history_entry(es, entry("dl_55", "New"));
    assert_eq!(find_history_entry(es, "dl_5").map(|e| e.clean_title), Some("New".to_string()));
}

#[test]
fn history_line_formats_movie_and_show() {
    let mut e = entry("dl_1", "Oppenheimer");
    e.year = Some(2023);
    e.file_size = 3 * 1_048_576 + 5;
    assert_eq!(
        history_line(&e, 0, true, true),
        " ❯ [1] 🎬 Oppenheimer (2023) — 3 MB [AI] [✔] (2026-09-06 00:00)"
    );
    let mut s = entry("dl_2", "Breaking Bad");
    s.year = None;
    s.season = Some(1);
    s.episode = Some(5);
    s.file_size = 100;
    s.rename_status = RenameStatus::RegexFallback;
    assert_eq!(
        history_line(&s, 9, false, false),
        "   [10] 🎬 Breaking Bad S01E05 — 0 MB [Regex] [✖ Missing] (2026-09-06 00:00)"
    );
    s.season = Some(12);
    s.episode = None;
    s.rename_status = RenameStatus::Manual;
    assert_eq!(
        history_line(&s, 2, false, true),
        "   [3] 🎬 Breaking Bad — 0 MB [Manual] [✔] (2026-09-06 00:00)"
    );
}

#[test]
fn unique_ids_never_repeat_a_recorded_one() {
    let far = "dl_99999999999999".to_string();
    let es = vec![entry(&far, "A"), entry("manual", "B"), entry("dl_5", "C")];
    let id = unique_id(&es).expect("an id");
    assert_eq!(id, "dl_100000000000000");
    let mut es = add_history_entry(es, entry(&id, "D"));
    let id2 = unique_id(&es).expect("an id");
    assert_ne!(id2, id);
    assert_eq!(id2, "dl_100000000000001");
    es.push(entry("dl_18446744073709551615", "E"));
    assert!(unique_id(&es).is_none());
    let fresh = unique_id(&Vec::new()).expect("an id");
    assert!(fresh.starts_with("dl_"));
}

#[test]
fn blank_history_text() {
    assert!(history_text_is_blank(""));
    assert!(history_text_is_blank(" \n\t"));
    assert!(!history_text_is_blank("[]"));
}

#[test]
fn id_numbers_follow_the_clock() {
    assert_eq!(next_id_number(1_700_000_000_123, None), Some(1_700_000_000_123));
    assert_eq!(next_id_number(1_700_000_000_123, Some(5)), Some(1_700_000_000_123));
    assert_eq!(next_id_number(1_700_000_000_123, Some(1_700_000_000_123)), Some(1_700_000_000_124));
    assert_eq!(next_id_number(u128::MAX, None), Some(u64::MAX));
    assert_eq!(next_id_number(7, Some(u64::MAX)), None);
    let es = vec![entry("dl_40", "A"), entry("other", "B"), entry("dl_12", "C")];
    assert_eq!(largest_id(&es), Some(40));
    assert_eq!(largest_id(&vec![entry("x", "X")]), None);
    assert_eq!(unique_id_at(&es, 1000).as_deref(), Some("dl_1000"));
    assert_eq!(unique_id_at(&es, 40).as_deref(), Some("dl_41"));
    assert_eq!(unique_id_at(&Vec::new(), 0).as_deref(), Some("dl_0"));
    assert_eq!(history_list_title(3), " Downloaded Media History & Management (3) ");
}
