use seedr_dl::gemini::{clean_title, file_extension, gemini_models, gemini_prompt, gemini_url, media_info_from_manual, parse_with_regex, resolve_media_info, MediaInfo, MediaType};

#[test]
fn test_parse_movie() {
    let raw = "Oppenheimer.2023.1080p.BluRay.x264.mkv";
    let info = parse_with_regex(raw);
    assert_eq!(info.media_type, MediaType::Movie);
    assert_eq!(info.title, "Oppenheimer");
    assert_eq!(info.year, Some(2023));
    assert_eq!(info.relative_folder, "movies/Oppenheimer (2023)");
    assert_eq!(info.clean_filename, "Oppenheimer (2023).mkv");
}

#[test]
fn test_parse_tv_show() {
    let raw = "Breaking.Bad.S01E05.720p.WEB-DL.mkv";
    let info = parse_with_regex(raw);
    assert_eq!(info.media_type, MediaType::Show);
    assert_eq!(info.title, "Breaking Bad");
    assert_eq!(info.season, Some(1));
    assert_eq!(info.episode, Some(5));
    assert_eq!(info.relative_folder, "shows/Breaking Bad/Season 01");
    assert_eq!(info.clean_filename, "Breaking Bad - S01E05.mkv");
}

#[test]
fn test_parse_movie_with_site_prefix() {
    let raw = "www 1TamilMV ing Jana Nayagan ( (2026).mkv";
    let info = parse_with_regex(raw);
    assert_eq!(info.media_type, MediaType::Movie);
    assert_eq!(info.title, "Jana Nayagan");
    assert_eq!(info.year, Some(2026));
    assert_eq!(info.relative_folder, "movies/Jana Nayagan (2026)");
    assert_eq!(info.clean_filename, "Jana Nayagan (2026).mkv");
}

#[test]
fn movie_without_year_or_extension() {
    let info = parse_with_regex("Some_Home_Video");
    assert_eq!(info.media_type, MediaType::Movie);
    assert_eq!(info.title, "Some Home Video");
    assert_eq!(info.year, None);
    assert_eq!(info.relative_folder, "movies/Some Home Video");
    assert_eq!(info.clean_filename, "Some Home Video");
}

#[test]
fn show_marker_is_case_insensitive_and_two_digit_padded() {
    let info = parse_with_regex("the_office_s2e9.avi");
    assert_eq!(info.media_type, MediaType::Show);
    assert_eq!(info.title, "the office");
    assert_eq!(info.season, Some(2));
    assert_eq!(info.episode, Some(9));
    assert_eq!(info.year, None);
    assert_eq!(info.relative_folder, "shows/the office/Season 02");
    assert_eq!(info.clean_filename, "the office - S02E09.avi");
}

#[test]
fn title_falls_back_to_trimmed_fragment_when_all_noise() {
    assert_eq!(clean_title("  1080p.x264 "), "1080p.x264");
    assert_eq!(clean_title("[Movie]_(Name)-"), "Movie] (Name");
    assert_eq!(clean_title("UHD.Dune.HEVC"), "Dune");
}

#[test]
fn hidden_file_keeps_whole_name_as_stem() {
    let info = parse_with_regex(".hidden");
    assert_eq!(info.title, "hidden");
    assert_eq!(info.relative_folder, "movies/hidden");
    assert_eq!(info.clean_filename, "hidden");
}

#[test]
fn gemini_request_pieces() {
    let p = gemini_prompt("Dune.mkv");
    assert!(p.starts_with("Analyze this media release filename for a Jellyfin media server: \"Dune.mkv\"\nReturn strictly valid JSON with this schema:\n{\n  \"media_type\": \"movie\" | \"show\",\n"));
    assert!(p.ends_with("\"clean_filename\": \"Title (Year).ext\" or \"Title (Year) - S01E05.ext\"\n}"));
    assert_eq!(gemini_models(), vec!["gemini-3.5-flash-lite", "gemini-2.5-flash", "gemini-1.5-flash"]);
    assert_eq!(
        gemini_url("gemini-2.5-flash", "K"),
        "https://generativelanguage.googleapis.com/v1beta/models/gemini-2.5-flash:generateContent?key=K"
    );
}

#[test]
fn answer_from_gemini_wins_over_offline_parse() {
    let ai = MediaInfo {
        media_type: MediaType::Movie,
        title: "Dune".into(),
        year: Some(2021),
        season: None,
        episode: None,
        relative_folder: "movies/Dune (2021)".into(),
        clean_filename: "Dune (2021).mkv".into(),
    };
    assert_eq!(resolve_media_info(Some(ai), "x.mkv").title, "Dune");
    let fallback = resolve_media_info(None, "Arrival.2016.mkv");
    assert_eq!(fallback.title, "Arrival");
    assert_eq!(fallback.year, Some(2016));
}

#[test]
fn extension_of_paths() {
    let ext = |p: &str| file_extension(p).map(|v| v.into_iter().collect::<String>());
    assert_eq!(ext("/a/b/movie.MKV"), Some("MKV".to_string()));
    assert_eq!(ext("/a/b/.hidden"), None);
    assert_eq!(ext("/a/b/noext"), None);
    assert_eq!(ext("archive.tar.gz"), Some("gz".to_string()));
    assert_eq!(ext("/"), None);
    assert_eq!(ext("/a/b.x/noext"), None);
}

#[test]
fn manual_naming() {
    let m = media_info_from_manual("Old.Name.2019.mkv", "New Title", Some(2020), None);
    assert_eq!(m.media_type, MediaType::Movie);
    assert_eq!(m.relative_folder, "movies/New Title (2020)");
    assert_eq!(m.clean_filename, "New Title (2020).mkv");
    let m = media_info_from_manual("noext", "T", None, None);
    assert_eq!((m.relative_folder.as_str(), m.clean_filename.as_str()), ("movies/T", "T"));
    let s = media_info_from_manual("x.S01E02.mp4", "Show", Some(2001), Some((1, 2)));
    assert_eq!(s.media_type, MediaType::Show);
    assert_eq!(s.year, Some(2001));
    assert_eq!(s.relative_folder, "shows/Show/Season 01");
    assert_eq!(s.clean_filename, "Show - S01E02.mp4");
}
