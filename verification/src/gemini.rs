//! Turning a release file name into Jellyfin naming: media type, title, year, season, episode,
//! target folder and file name. The regex parser lives here; the Gemini request is built here
//! and sent by the application.

use vstd::prelude::*;
use crate::text::{
    chars_eq_str, chars_of, join_spaces, join_with_spaces, lowercase, lowercase_chars, pad2,
    parse_unsigned, parse_unsigned_spec, push_chars, push_decimal, push_pad2, push_str,
    split_whitespace, string_of, trim, trim_by, trim_ws, trimmed, views, words, decimal,
};

verus! {

/// Kind of media a release holds.
#[derive(Debug, Clone, Copy, PartialEq, Eq, Structural)]
pub enum MediaType {
    Movie,
    Show,
}

/// Naming of one release for a Jellyfin library.
#[derive(Debug, Clone)]
pub struct MediaInfo {
    pub media_type: MediaType,
    pub title: String,
    pub year: Option<u32>,
    pub season: Option<u32>,
    pub episode: Option<u32>,
    pub relative_folder: String,
    pub clean_filename: String,
}

/// `MediaInfo` with its strings as character sequences.
pub struct MediaInfoView {
    pub media_type: MediaType,
    pub title: Seq<char>,
    pub year: Option<u32>,
    pub season: Option<u32>,
    pub episode: Option<u32>,
    pub relative_folder: Seq<char>,
    pub clean_filename: Seq<char>,
}

impl View for MediaInfo {
    type V = MediaInfoView;

    open spec fn view(&self) -> MediaInfoView {
        MediaInfoView {
            media_type: self.media_type,
            title: self.title@,
            year: self.year,
            season: self.season,
            episode: self.episode,
            relative_folder: self.relative_folder@,
            clean_filename: self.clean_filename@,
        }
    }
}

/// The optional string as an optional character sequence.
pub open spec fn opt_view(s: Option<String>) -> Option<Seq<char>> {
    match s {
        Some(t) => Some(t@),
        None => None,
    }
}

/// The capture groups of a regex match, as char-index ranges (`None` for a group that did not
/// take part), or `None` when there is no match.
pub open spec fn captures_view(c: Option<Vec<Option<(usize, usize)>>>) -> Option<
    Seq<Option<(usize, usize)>>,
> {
    match c {
        Some(v) => Some(v@),
        None => None,
    }
}

/// `std::path::Path::file_name`: the final component of a path, if it has one.
pub uninterp spec fn path_file_name(path: Seq<char>) -> Option<Seq<char>>;

/// `std::path::Path::file_name`. The contract names the result: it depends on the path alone.
#[verifier::external_body]
fn file_name_of(path: &str) -> (r: Option<String>)
    ensures
        opt_view(r) == path_file_name(path@),
{
    std::path::Path::new(path).file_name().and_then(|n| n.to_str()).map(|n| n.to_string())
}

/// `regex::Regex::captures` of the regex compiled from `pattern`: the leftmost-first match in
/// `haystack` with its groups, or `None` when the pattern does not compile or does not match.
pub uninterp spec fn regex_captures_spec(pattern: Seq<char>, haystack: Seq<char>) -> Option<
    Seq<Option<(usize, usize)>>,
>;

/// `regex::Regex::new` then `regex::Regex::captures`. The result is named: what the regex crate
/// matches depends on the pattern and the haystack alone. Offsets are converted from bytes to
/// characters. The contract also states that each group's range lies within the haystack, as
/// `regex::Match` documents (`start <= end <= haystack.len()`). What the groups hold beyond that
/// is left unsaid.
#[verifier::external_body]
fn regex_captures(pattern: &str, haystack: &str) -> (r: Option<Vec<Option<(usize, usize)>>>)
    ensures
        captures_view(r) == regex_captures_spec(pattern@, haystack@),
        r matches Some(v) ==> forall|i: int|
            0 <= i < v@.len() ==> (#[trigger] v@[i] matches Some(g) ==> g.0 <= g.1 <= haystack@.len()),
{
    let re = regex::Regex::new(pattern).ok()?;
    let caps = re.captures(haystack)?;
    let to_char = |b: usize| haystack[..b].chars().count();
    Some(caps.iter().map(|m| m.map(|m| (to_char(m.start()), to_char(m.end())))).collect())
}

/// Pattern for a season/episode marker such as `.S01E05`.
pub const SHOW_PATTERN: &'static str = r"(?i)[._ -]S(\d{1,2})E(\d{1,2})";

/// Pattern for a release year from 1900 to 2099.
pub const YEAR_PATTERN: &'static str = r"(?:19|20)\d{2}";

// ---------------------------------------------------------------------------------------------
// File name, stem and extension
// ---------------------------------------------------------------------------------------------

/// Index of the last occurrence of `c` in `s`, or -1.
pub open spec fn last_index_of(s: Seq<char>, c: char) -> int
    decreases s.len(),
{
    if s.len() == 0 {
        -1
    } else if s.last() == c {
        s.len() - 1
    } else {
        last_index_of(s.drop_last(), c)
    }
}

proof fn lemma_last_index_of(s: Seq<char>, c: char)
    ensures
        -1 <= last_index_of(s, c) < s.len(),
        last_index_of(s, c) >= 0 ==> s[last_index_of(s, c)] == c,
    decreases s.len(),
{
    if s.len() > 0 && s.last() != c {
        lemma_last_index_of(s.drop_last(), c);
    }
}

/// `Path::file_stem` of a file name: the part before the last `.`, or the whole name when it has
/// no `.` other than a leading one (and for `..`).
pub open spec fn stem_of(name: Seq<char>) -> Seq<char> {
    let d = last_index_of(name, '.');
    if name == seq!['.', '.'] || d <= 0 { name } else { name.take(d) }
}

/// `Path::extension` of a file name: the part after the last `.`, if there is a `.` other than a
/// leading one (never for `..`).
pub open spec fn extension_of(name: Seq<char>) -> Option<Seq<char>> {
    let d = last_index_of(name, '.');
    if name == seq!['.', '.'] || d <= 0 { None } else { Some(name.skip(d + 1)) }
}

/// The stem the parser works on: that of the file name, or the raw name without one.
pub open spec fn name_stem(raw: Seq<char>) -> Seq<char> {
    match path_file_name(raw) {
        Some(n) => stem_of(n),
        None => raw,
    }
}

/// The extension appended to new file names: `.` and the extension, or nothing.
pub open spec fn name_ext(raw: Seq<char>) -> Seq<char> {
    match path_file_name(raw) {
        Some(n) => match extension_of(n) {
            Some(e) => seq!['.'] + e,
            None => seq![],
        },
        None => seq![],
    }
}

fn last_dot(s: &Vec<char>) -> (r: Option<usize>)
    ensures
        match r {
            Some(i) => i as int == last_index_of(s@, '.'),
            None => last_index_of(s@, '.') == -1,
        },
{
    let mut j: usize = s.len();
    assert(s@.take(j as int) =~= s@);
    while j > 0
        invariant
            j <= s.len(),
            last_index_of(s@, '.') == last_index_of(s@.take(j as int), '.'),
        decreases j,
    {
        let ghost p = s@.take(j as int);
        assert(p.drop_last() =~= s@.take(j - 1));
        if s[j - 1] == '.' {
            return Some(j - 1);
        }
        j = j - 1;
    }
    None
}

fn is_dot_dot(s: &Vec<char>) -> (r: bool)
    ensures
        r == (s@ == seq!['.', '.']),
{
    let r = s.len() == 2 && s[0] == '.' && s[1] == '.';
    proof {
        if s.len() == 2 && s[0] == '.' && s[1] == '.' {
            assert(s@ =~= seq!['.', '.']);
        }
    }
    r
}

fn copy_range(s: &Vec<char>, from: usize, to: usize) -> (r: Vec<char>)
    requires
        from <= to <= s.len(),
    ensures
        r@ == s@.subrange(from as int, to as int),
{
    let mut r: Vec<char> = Vec::new();
    let mut k: usize = from;
    while k < to
        invariant
            from <= k <= to <= s.len(),
            r@ == s@.subrange(from as int, k as int),
        decreases to - k,
    {
        r.push(s[k]);
        k = k + 1;
        assert(r@ =~= s@.subrange(from as int, k as int));
    }
    r
}

/// The stem and the `.ext` suffix of a raw release name.
pub fn split_name(raw: &str) -> (r: (Vec<char>, Vec<char>))
    ensures
        r.0@ == name_stem(raw@),
        r.1@ == name_ext(raw@),
{
    match file_name_of(raw) {
        Some(n) => {
            let name = chars_of(n.as_str());
            let dd = is_dot_dot(&name);
            proof {
                lemma_last_index_of(name@, '.');
            }
            match last_dot(&name) {
                Some(d) if !dd && d > 0 => {
                    let stem = copy_range(&name, 0, d);
                    let mut ext: Vec<char> = Vec::new();
                    ext.push('.');
                    let tail = copy_range(&name, d + 1, name.len());
                    push_chars(&mut ext, &tail);
                    assert(stem@ =~= name@.take(d as int));
                    assert(ext@ =~= seq!['.'] + name@.skip(d + 1));
                    (stem, ext)
                },
                _ => (name, Vec::new()),
            }
        },
        None => (chars_of(raw), Vec::new()),
    }
}

} // verus!

verus! {

// ---------------------------------------------------------------------------------------------
// Title cleaning
// ---------------------------------------------------------------------------------------------

/// Release-scene words dropped from titles (compared in lowercase).
pub open spec fn is_noise(w: Seq<char>) -> bool {
    ||| w == "1080p"@
    ||| w == "720p"@
    ||| w == "2160p"@
    ||| w == "4k"@
    ||| w == "uhd"@
    ||| w == "bluray"@
    ||| w == "webrip"@
    ||| w == "web-dl"@
    ||| w == "x264"@
    ||| w == "x265"@
    ||| w == "hevc"@
    ||| w == "dts"@
    ||| w == "aac"@
    ||| w == "rarbg"@
    ||| w == "yts"@
    ||| w == "www"@
    ||| w == "tamilmv"@
    ||| w == "1tamilmv"@
    ||| w == "ing"@
}

fn is_noise_word(w: &Vec<char>) -> (r: bool)
    ensures
        r == is_noise(w@),
{
    chars_eq_str(w, "1080p") || chars_eq_str(w, "720p") || chars_eq_str(w, "2160p")
        || chars_eq_str(w, "4k") || chars_eq_str(w, "uhd") || chars_eq_str(w, "bluray")
        || chars_eq_str(w, "webrip") || chars_eq_str(w, "web-dl") || chars_eq_str(w, "x264")
        || chars_eq_str(w, "x265") || chars_eq_str(w, "hevc") || chars_eq_str(w, "dts")
        || chars_eq_str(w, "aac") || chars_eq_str(w, "rarbg") || chars_eq_str(w, "yts")
        || chars_eq_str(w, "www") || chars_eq_str(w, "tamilmv") || chars_eq_str(w, "1tamilmv")
        || chars_eq_str(w, "ing")
}

/// The words that are not noise, in order.
pub open spec fn kept_words(ws: Seq<Seq<char>>) -> Seq<Seq<char>>
    decreases ws.len(),
{
    if ws.len() == 0 {
        seq![]
    } else {
        let r = kept_words(ws.drop_last());
        if is_noise(lowercase(ws.last())) { r } else { r.push(ws.last()) }
    }
}

/// `.`, `_` and `-` read as spaces.
pub open spec fn separators_to_spaces(s: Seq<char>) -> Seq<char> {
    s.map_values(|c: char| if c == '.' || c == '_' || c == '-' { ' ' } else { c })
}

/// A title from a fragment of a release name: separators become spaces, noise words go, the
/// rest are joined by single spaces and stripped of edge brackets, dashes and underscores.
/// When nothing is left, the fragment itself, trimmed.
pub open spec fn clean_title_spec(s: Seq<char>) -> Seq<char> {
    let t = trimmed(join_spaces(kept_words(words(separators_to_spaces(s)))), true);
    if t.len() == 0 { trim_ws(s) } else { t }
}

fn copy_all(v: &Vec<char>) -> (r: Vec<char>)
    ensures
        r@ == v@,
{
    let mut r: Vec<char> = Vec::new();
    push_chars(&mut r, v);
    assert(r@ =~= v@);
    r
}

fn clean_title_chars(s: &Vec<char>) -> (r: Vec<char>)
    ensures
        r@ == clean_title_spec(s@),
{
    let mut replaced: Vec<char> = Vec::new();
    let mut i: usize = 0;
    while i < s.len()
        invariant
            i <= s.len(),
            replaced@ == separators_to_spaces(s@.take(i as int)),
        decreases s.len() - i,
    {
        let c = s[i];
        let d = if c == '.' || c == '_' || c == '-' { ' ' } else { c };
        replaced.push(d);
        i = i + 1;
        assert(replaced@ =~= separators_to_spaces(s@.take(i as int)));
    }
    assert(s@.take(s.len() as int) =~= s@);
    let ws = split_whitespace(&replaced);
    let mut kept: Vec<Vec<char>> = Vec::new();
    let mut k: usize = 0;
    while k < ws.len()
        invariant
            k <= ws.len(),
            views(kept@) == kept_words(views(ws@).take(k as int)),
        decreases ws.len() - k,
    {
        let ghost pre = views(ws@).take(k as int);
        let ghost cur = views(ws@).take(k + 1);
        assert(cur.drop_last() =~= pre);
        assert(cur.last() == ws@[k as int]@);
        let lw = lowercase_chars(&ws[k]);
        if !is_noise_word(&lw) {
            let w = copy_all(&ws[k]);
            kept.push(w);
            assert(views(kept@) =~= kept_words(pre).push(cur.last()));
        }
        k = k + 1;
    }
    assert(views(ws@).take(ws.len() as int) =~= views(ws@));
    let joined = join_with_spaces(&kept);
    let t = trim_by(&joined, true);
    if t.len() == 0 {
        trim(s)
    } else {
        t
    }
}

/// Cleans a fragment of a release name into a title.
pub fn clean_title(s: &str) -> (r: String)
    ensures
        r@ == clean_title_spec(s@),
{
    let v = chars_of(s);
    let t = clean_title_chars(&v);
    string_of(&t)
}

} // verus!

verus! {

// ---------------------------------------------------------------------------------------------
// Naming from matches
// ---------------------------------------------------------------------------------------------

/// Every group range of a match lies within a text of length `n`.
pub open spec fn groups_within(c: Option<Seq<Option<(usize, usize)>>>, n: int) -> bool {
    c matches Some(v) ==> forall|i: int|
        0 <= i < v.len() ==> (#[trigger] v[i] matches Some(g) ==> g.0 <= g.1 <= n)
}

/// The number capture group `g` spells, or 1 when the group is missing or not a `u32`.
pub open spec fn group_number(stem: Seq<char>, caps: Seq<Option<(usize, usize)>>, g: int) -> u32 {
    if 0 <= g < caps.len() {
        match caps[g] {
            Some(m) => match parse_unsigned_spec(stem.subrange(m.0 as int, m.1 as int), u32::MAX as nat) {
                Some(v) => v as u32,
                None => 1,
            },
            None => 1,
        }
    } else {
        1
    }
}

/// Naming for a show episode: the title is what precedes the season/episode marker.
pub open spec fn show_info(stem: Seq<char>, ext: Seq<char>, caps: Seq<Option<(usize, usize)>>) -> MediaInfoView {
    let season = group_number(stem, caps, 1);
    let episode = group_number(stem, caps, 2);
    let cut = match whole_match(Some(caps)) { Some(g) => g.0 as int, None => stem.len() as int };
    let title = clean_title_spec(stem.take(cut));
    MediaInfoView {
        media_type: MediaType::Show,
        title,
        year: None,
        season: Some(season),
        episode: Some(episode),
        relative_folder: "shows/"@ + title + "/Season "@ + pad2(season as nat),
        clean_filename: title + " - S"@ + pad2(season as nat) + "E"@ + pad2(episode as nat) + ext,
    }
}

/// The whole-match range of a match, if any.
pub open spec fn whole_match(c: Option<Seq<Option<(usize, usize)>>>) -> Option<(usize, usize)> {
    match c {
        Some(v) => if v.len() > 0 { v[0] } else { None },
        None => None,
    }
}

/// Naming for a movie: the title is what precedes the year match, and the year is the matched
/// text when it reads as a `u32`.
pub open spec fn movie_info(stem: Seq<char>, ext: Seq<char>, year_caps: Option<Seq<Option<(usize, usize)>>>) -> MediaInfoView {
    let m = whole_match(year_caps);
    let year: Option<u32> = match m {
        Some(g) => match parse_unsigned_spec(stem.subrange(g.0 as int, g.1 as int), u32::MAX as nat) {
            Some(v) => Some(v as u32),
            None => None,
        },
        None => None,
    };
    let title_part = match m {
        Some(g) => stem.take(g.0 as int),
        None => stem,
    };
    let title = clean_title_spec(title_part);
    MediaInfoView {
        media_type: MediaType::Movie,
        title,
        year,
        season: None,
        episode: None,
        relative_folder: match year {
            Some(y) => "movies/"@ + title + " ("@ + decimal(y as nat) + ")"@,
            None => "movies/"@ + title,
        },
        clean_filename: match year {
            Some(y) => title + " ("@ + decimal(y as nat) + ")"@ + ext,
            None => title + ext,
        },
    }
}

/// Naming from the show-marker match (tried first) and the year match.
pub open spec fn media_info_spec(
    stem: Seq<char>,
    ext: Seq<char>,
    show: Option<Seq<Option<(usize, usize)>>>,
    year: Option<Seq<Option<(usize, usize)>>>,
) -> MediaInfoView {
    match show {
        Some(c) => show_info(stem, ext, c),
        None => movie_info(stem, ext, year),
    }
}

fn group_number_exec(stem: &Vec<char>, caps: &Vec<Option<(usize, usize)>>, g: usize) -> (r: u32)
    requires
        groups_within(Some(caps@), stem@.len() as int),
    ensures
        r == group_number(stem@, caps@, g as int),
{
    if g < caps.len() {
        match caps[g] {
            Some(m) => {
                assert(caps@[g as int] matches Some(h) && h.0 <= h.1 <= stem@.len());
                let digits = copy_range(stem, m.0, m.1);
                match parse_unsigned(&digits, 4294967295u64) {
                    Some(v) => v as u32,
                    None => 1,
                }
            },
            None => 1,
        }
    } else {
        1
    }
}

/// Builds the naming of a release from its stem, its `.ext` suffix and the two regex results:
/// the show-marker captures and the year captures (consulted only without a show marker).
pub fn media_info_from_matches(
    stem: &Vec<char>,
    ext: &Vec<char>,
    show: Option<Vec<Option<(usize, usize)>>>,
    year: Option<Vec<Option<(usize, usize)>>>,
) -> (r: MediaInfo)
    requires
        groups_within(captures_view(show), stem@.len() as int),
        groups_within(captures_view(year), stem@.len() as int),
    ensures
        r@ == media_info_spec(stem@, ext@, captures_view(show), captures_view(year)),
{
    match show {
        Some(caps) => {
            let season = group_number_exec(stem, &caps, 1);
            let episode = group_number_exec(stem, &caps, 2);
            let cut = if caps.len() > 0 && caps[0].is_some() {
                match caps[0] {
                    Some(m) => {
                        assert(caps@[0] matches Some(h) && h.1 <= stem@.len());
                        m.0
                    },
                    None => stem.len(),
                }
            } else {
                stem.len()
            };
            let part = copy_range(stem, 0, cut);
            assert(part@ =~= stem@.take(cut as int));
            let title = clean_title_chars(&part);
            let mut folder: Vec<char> = Vec::new();
            push_str(&mut folder, "shows/");
            push_chars(&mut folder, &title);
            push_str(&mut folder, "/Season ");
            push_pad2(&mut folder, season as u128);
            let mut file: Vec<char> = Vec::new();
            push_chars(&mut file, &title);
            push_str(&mut file, " - S");
            push_pad2(&mut file, season as u128);
            push_str(&mut file, "E");
            push_pad2(&mut file, episode as u128);
            push_chars(&mut file, ext);
            let r = MediaInfo {
                media_type: MediaType::Show,
                title: string_of(&title),
                year: None,
                season: Some(season),
                episode: Some(episode),
                relative_folder: string_of(&folder),
                clean_filename: string_of(&file),
            };
            assert(r@ == media_info_spec(stem@, ext@, captures_view(Some(caps)), captures_view(year)));
            r
        },
        None => {
            let m: Option<(usize, usize)> = match &year {
                Some(c) => if c.len() > 0 { c[0] } else { None },
                None => None,
            };
            assert(m == whole_match(captures_view(year)));
            let y: Option<u32> = match m {
                Some(g) => {
                    assert(captures_view(year) matches Some(v) && v[0] == Some(g));
                    let digits = copy_range(stem, g.0, g.1);
                    match parse_unsigned(&digits, 4294967295u64) {
                        Some(v) => Some(v as u32),
                        None => None,
                    }
                },
                None => None,
            };
            let part = match m {
                Some(g) => {
                    let p = copy_range(stem, 0, g.0);
                    assert(p@ =~= stem@.take(g.0 as int));
                    p
                },
                None => copy_all(stem),
            };
            let title = clean_title_chars(&part);
            let mut folder: Vec<char> = Vec::new();
            let mut file: Vec<char> = Vec::new();
            push_str(&mut folder, "movies/");
            push_chars(&mut folder, &title);
            push_chars(&mut file, &title);
            match y {
                Some(yv) => {
                    push_str(&mut folder, " (");
                    push_decimal(&mut folder, yv as u128);
                    push_str(&mut folder, ")");
                    push_str(&mut file, " (");
                    push_decimal(&mut file, yv as u128);
                    push_str(&mut file, ")");
                },
                None => {},
            }
            push_chars(&mut file, ext);
            let r = MediaInfo {
                media_type: MediaType::Movie,
                title: string_of(&title),
                year: y,
                season: None,
                episode: None,
                relative_folder: string_of(&folder),
                clean_filename: string_of(&file),
            };
            assert(r@.relative_folder =~= movie_info(stem@, ext@, captures_view(year)).relative_folder);
            assert(r@.clean_filename =~= movie_info(stem@, ext@, captures_view(year)).clean_filename);
            r
        },
    }
}

/// What the offline parser makes of a release name.
pub open spec fn parsed(raw: Seq<char>) -> MediaInfoView {
    media_info_spec(
        name_stem(raw),
        name_ext(raw),
        regex_captures_spec(SHOW_PATTERN@, name_stem(raw)),
        regex_captures_spec(YEAR_PATTERN@, name_stem(raw)),
    )
}

/// The extension of a path's last component (`Path::extension`).
pub fn file_extension(path: &str) -> (r: Option<Vec<char>>)
    ensures
        match r {
            Some(e) => path_file_name(path@) matches Some(n) && extension_of(n) == Some(e@),
            None => match path_file_name(path@) {
                Some(n) => extension_of(n) is None,
                None => true,
            },
        },
{
    match file_name_of(path) {
        Some(n) => {
            let name = chars_of(n.as_str());
            let dd = is_dot_dot(&name);
            proof {
                lemma_last_index_of(name@, '.');
            }
            match last_dot(&name) {
                Some(d) if !dd && d > 0 => {
                    assert(d < name.len());
                    let e = copy_range(&name, d + 1, name.len());
                    assert(e@ =~= name@.skip(d + 1));
                    Some(e)
                },
                _ => None,
            }
        },
        None => None,
    }
}

/// Parses a release name offline: a season/episode marker makes it a show episode, otherwise it
/// is a movie, with a year when one is found.
pub fn parse_with_regex(raw_name: &str) -> (r: MediaInfo)
    ensures
        r@ == parsed(raw_name@),
{
    let (stem, ext) = split_name(raw_name);
    let stem_str = string_of(&stem);
    let show = regex_captures(SHOW_PATTERN, stem_str.as_str());
    if show.is_some() {
        media_info_from_matches(&stem, &ext, show, None)
    } else {
        let year = regex_captures(YEAR_PATTERN, stem_str.as_str());
        media_info_from_matches(&stem, &ext, show, year)
    }
}

/// Text of the prompt before the release name.
pub const PROMPT_HEAD: &'static str = "Analyze this media release filename for a Jellyfin media server: \"";

/// Text of the prompt after the release name: the JSON schema the answer must follow.
pub const PROMPT_TAIL: &'static str = "\"\nReturn strictly valid JSON with this schema:\n{\n  \"media_type\": \"movie\" | \"show\",\n  \"title\": \"Clean Canonical Title\",\n  \"year\": 2023 or null,\n  \"season\": 1 or null,\n  \"episode\": 5 or null,\n  \"relative_folder\": \"movies/Title (Year)\" or \"shows/Title (Year)/Season 01\",\n  \"clean_filename\": \"Title (Year).ext\" or \"Title (Year) - S01E05.ext\"\n}";

/// Start of every Gemini model URL.
pub const GEMINI_BASE_URL: &'static str = "https://generativelanguage.googleapis.com/v1beta/models/";

/// The models asked, in this order, until one answers with a usable result.
pub open spec fn gemini_model_names() -> Seq<Seq<char>> {
    seq!["gemini-3.5-flash-lite"@, "gemini-2.5-flash"@, "gemini-1.5-flash"@]
}

/// The prompt that asks Gemini to classify `raw_name`.
pub fn gemini_prompt(raw_name: &str) -> (r: String)
    ensures
        r@ == PROMPT_HEAD@ + raw_name@ + PROMPT_TAIL@,
{
    let mut v: Vec<char> = Vec::new();
    push_str(&mut v, PROMPT_HEAD);
    push_str(&mut v, raw_name);
    push_str(&mut v, PROMPT_TAIL);
    string_of(&v)
}

/// The models to ask, in order.
pub fn gemini_models() -> (r: Vec<String>)
    ensures
        r@.len() == gemini_model_names().len(),
        forall|i: int| 0 <= i < r@.len() ==> #[trigger] r@[i]@ == gemini_model_names()[i],
{
    let mut r: Vec<String> = Vec::new();
    r.push(string_of(&chars_of("gemini-3.5-flash-lite")));
    r.push(string_of(&chars_of("gemini-2.5-flash")));
    r.push(string_of(&chars_of("gemini-1.5-flash")));
    r
}

/// The `generateContent` URL of `model`, authenticated by `api_key`.
pub fn gemini_url(model: &str, api_key: &str) -> (r: String)
    ensures
        r@ == GEMINI_BASE_URL@ + model@ + ":generateContent?key="@ + api_key@,
{
    let mut v: Vec<char> = Vec::new();
    push_str(&mut v, GEMINI_BASE_URL);
    push_str(&mut v, model);
    push_str(&mut v, ":generateContent?key=");
    push_str(&mut v, api_key);
    string_of(&v)
}

/// What a release is taken to be: Gemini's answer when one came back, else the offline parse.
pub fn resolve_media_info(gemini_answer: Option<MediaInfo>, raw_name: &str) -> (r: MediaInfo)
    ensures
        match gemini_answer {
            Some(info) => r@ == info@,
            None => r@ == parsed(raw_name@),
        },
{
    match gemini_answer {
        Some(info) => info,
        None => parse_with_regex(raw_name),
    }
}

/// Naming chosen by hand: an episode when a season and episode are given, else a movie; the
/// extension comes from the original release name.
pub open spec fn manual_info_spec(
    original: Seq<char>,
    title: Seq<char>,
    year: Option<u32>,
    season_episode: Option<(u32, u32)>,
) -> MediaInfoView {
    let ext = name_ext(original);
    match season_episode {
        Some((s, e)) => MediaInfoView {
            media_type: MediaType::Show,
            title,
            year,
            season: Some(s),
            episode: Some(e),
            relative_folder: "shows/"@ + title + "/Season "@ + pad2(s as nat),
            clean_filename: title + " - S"@ + pad2(s as nat) + "E"@ + pad2(e as nat) + ext,
        },
        None => MediaInfoView {
            media_type: MediaType::Movie,
            title,
            year,
            season: None,
            episode: None,
            relative_folder: match year {
                Some(y) => "movies/"@ + title + " ("@ + decimal(y as nat) + ")"@,
                None => "movies/"@ + title,
            },
            clean_filename: match year {
                Some(y) => title + " ("@ + decimal(y as nat) + ")"@ + ext,
                None => title + ext,
            },
        },
    }
}

/// The naming of a release renamed by hand.
pub fn media_info_from_manual(
    original_name: &str,
    title: &str,
    year: Option<u32>,
    season_episode: Option<(u32, u32)>,
) -> (r: MediaInfo)
    ensures
        r@ == manual_info_spec(original_name@, title@, year, season_episode),
{
    let (_stem, ext) = split_name(original_name);
    let t = chars_of(title);
    let mut folder: Vec<char> = Vec::new();
    let mut file: Vec<char> = Vec::new();
    match season_episode {
        Some((s, e)) => {
            push_str(&mut folder, "shows/");
            push_chars(&mut folder, &t);
            push_str(&mut folder, "/Season ");
            push_pad2(&mut folder, s as u128);
            push_chars(&mut file, &t);
            push_str(&mut file, " - S");
            push_pad2(&mut file, s as u128);
            push_str(&mut file, "E");
            push_pad2(&mut file, e as u128);
            push_chars(&mut file, &ext);
            let r = MediaInfo {
                media_type: MediaType::Show,
                title: string_of(&t),
                year,
                season: Some(s),
                episode: Some(e),
                relative_folder: string_of(&folder),
                clean_filename: string_of(&file),
            };
            assert(r@.relative_folder =~= manual_info_spec(original_name@, title@, year, season_episode).relative_folder);
            assert(r@.clean_filename =~= manual_info_spec(original_name@, title@, year, season_episode).clean_filename);
            r
        },
        None => {
            push_str(&mut folder, "movies/");
            push_chars(&mut folder, &t);
            push_chars(&mut file, &t);
            match year {
                Some(y) => {
                    push_str(&mut folder, " (");
                    push_decimal(&mut folder, y as u128);
                    push_str(&mut folder, ")");
                    push_str(&mut file, " (");
                    push_decimal(&mut file, y as u128);
                    push_str(&mut file, ")");
                },
                None => {},
            }
            push_chars(&mut file, &ext);
            let r = MediaInfo {
                media_type: MediaType::Movie,
                title: string_of(&t),
                year,
                season: None,
                episode: None,
                relative_folder: string_of(&folder),
                clean_filename: string_of(&file),
            };
            assert(r@.relative_folder =~= manual_info_spec(original_name@, title@, year, season_episode).relative_folder);
            assert(r@.clean_filename =~= manual_info_spec(original_name@, title@, year, season_episode).clean_filename);
            r
        },
    }
}

/// `s` ends with `t`.
pub open spec fn ends_with(s: Seq<char>, t: Seq<char>) -> bool {
    s.len() >= t.len() && s.subrange(s.len() - t.len(), s.len() as int) == t
}

/// `s` begins with `t`.
pub open spec fn begins_with(s: Seq<char>, t: Seq<char>) -> bool {
    s.len() >= t.len() && s.take(t.len() as int) == t
}

proof fn lemma_title_mid_ext(title: Seq<char>, mid: Seq<char>, ext: Seq<char>)
    ensures
        begins_with(title + mid + ext, title),
        ends_with(title + mid + ext, ext),
{
    let f = title + mid + ext;
    assert(f.take(title.len() as int) =~= title);
    assert(f.subrange(f.len() - ext.len(), f.len() as int) =~= ext);
}

/// A manual rename keeps the video's extension and the typed title: the new file name is the
/// title, then the year or episode part, then `.` and the original name's extension; the typed
/// year is kept; a season and episode make it a show, their absence a movie.
pub proof fn law_manual_naming(
    original: Seq<char>,
    title: Seq<char>,
    year: Option<u32>,
    season_episode: Option<(u32, u32)>,
)
    ensures
        ({
            let m = manual_info_spec(original, title, year, season_episode);
            &&& ends_with(m.clean_filename, name_ext(original))
            &&& begins_with(m.clean_filename, title)
            &&& m.title == title
            &&& m.year == year
            &&& (season_episode matches Some((s, e)) ==> m.media_type == MediaType::Show && m.season
                == Some(s) && m.episode == Some(e) && begins_with(m.relative_folder, "shows/"@ + title))
            &&& (season_episode is None ==> m.media_type == MediaType::Movie && m.season is None
                && m.episode is None && begins_with(m.relative_folder, "movies/"@ + title))
        }),
{
    let m = manual_info_spec(original, title, year, season_episode);
    let ext = name_ext(original);
    match season_episode {
        Some((s, e)) => {
            lemma_title_mid_ext(title, " - S"@ + pad2(s as nat) + "E"@ + pad2(e as nat), ext);
            assert(m.clean_filename =~= title + (" - S"@ + pad2(s as nat) + "E"@ + pad2(e as nat)) + ext);
            lemma_title_mid_ext("shows/"@ + title, "/Season "@, pad2(s as nat));
            assert(m.relative_folder =~= ("shows/"@ + title) + "/Season "@ + pad2(s as nat));
        },
        None => {
            match year {
                Some(y) => {
                    lemma_title_mid_ext(title, " ("@ + decimal(y as nat) + ")"@, ext);
                    assert(m.clean_filename =~= title + (" ("@ + decimal(y as nat) + ")"@) + ext);
                    lemma_title_mid_ext("movies/"@ + title, " ("@ + decimal(y as nat), ")"@);
                    assert(m.relative_folder =~= ("movies/"@ + title) + (" ("@ + decimal(y as nat)) + ")"@);
                },
                None => {
                    lemma_title_mid_ext(title, seq![], ext);
                    assert(m.clean_filename =~= title + Seq::<char>::empty() + ext);
                    lemma_title_mid_ext("movies/"@ + title, seq![], seq![]);
                    assert(m.relative_folder =~= ("movies/"@ + title) + Seq::<char>::empty() + Seq::<char>::empty());
                },
            }
        },
    }
}

/// The offline parse keeps the video's extension too: its file name is its title, then the year
/// or episode part, then `.` and the release name's extension.
pub proof fn law_parsed_naming_keeps_extension(raw: Seq<char>)
    ensures
        ends_with(parsed(raw).clean_filename, name_ext(raw)),
        begins_with(parsed(raw).clean_filename, parsed(raw).title),
{
    let p = parsed(raw);
    let ext = name_ext(raw);
    if p.media_type == MediaType::Show {
        let s = p.season->0;
        let e = p.episode->0;
        lemma_title_mid_ext(p.title, " - S"@ + pad2(s as nat) + "E"@ + pad2(e as nat), ext);
        assert(p.clean_filename =~= p.title + (" - S"@ + pad2(s as nat) + "E"@ + pad2(e as nat)) + ext);
    } else {
        match p.year {
            Some(y) => {
                lemma_title_mid_ext(p.title, " ("@ + decimal(y as nat) + ")"@, ext);
                assert(p.clean_filename =~= p.title + (" ("@ + decimal(y as nat) + ")"@) + ext);
            },
            None => {
                lemma_title_mid_ext(p.title, seq![], ext);
                assert(p.clean_filename =~= p.title + Seq::<char>::empty() + ext);
            },
        }
    }
}

proof fn lemma_kept_is_filter(ws: Seq<Seq<char>>, keep: spec_fn(Seq<char>) -> bool)
    requires
        forall|w: Seq<char>| #[trigger] keep(w) == !is_noise(lowercase(w)),
    ensures
        kept_words(ws) == ws.filter(keep),
    decreases ws.len(),
{
    reveal(Seq::filter);
    if ws.len() > 0 {
        lemma_kept_is_filter(ws.drop_last(), keep);
        assert(keep(ws.last()) == !is_noise(lowercase(ws.last())));
    } else {
        assert(kept_words(ws) =~= ws.filter(keep));
    }
}

/// Title cleaning drops exactly the release-scene words: of the words of the fragment (with
/// `.`, `_` and `-` read as spaces) it keeps, in order, those whose lowercase form is none of
/// 1080p, 720p, 2160p, 4k, uhd, bluray, webrip, web-dl, x264, x265, hevc, dts, aac, rarbg, yts,
/// www, tamilmv, 1tamilmv, ing; joins them with single spaces and strips the edges; and falls
/// back to the fragment, trimmed, when nothing is left.
pub proof fn law_scene_words_dropped(s: Seq<char>)
    ensures
        ({
            let keep = |w: Seq<char>| {
                let l = lowercase(w);
                !(l == "1080p"@ || l == "720p"@ || l == "2160p"@ || l == "4k"@ || l == "uhd"@
                    || l == "bluray"@ || l == "webrip"@ || l == "web-dl"@ || l == "x264"@ || l == "x265"@
                    || l == "hevc"@ || l == "dts"@ || l == "aac"@ || l == "rarbg"@ || l == "yts"@
                    || l == "www"@ || l == "tamilmv"@ || l == "1tamilmv"@ || l == "ing"@)
            };
            let kept = words(separators_to_spaces(s)).filter(keep);
            let t = trimmed(join_spaces(kept), true);
            &&& kept_words(words(separators_to_spaces(s))) == kept
            &&& clean_title_spec(s) == (if t.len() == 0 { trim_ws(s) } else { t })
        }),
{
    let keep = |w: Seq<char>| {
        let l = lowercase(w);
        !(l == "1080p"@ || l == "720p"@ || l == "2160p"@ || l == "4k"@ || l == "uhd"@
                    || l == "bluray"@ || l == "webrip"@ || l == "web-dl"@ || l == "x264"@ || l == "x265"@
                    || l == "hevc"@ || l == "dts"@ || l == "aac"@ || l == "rarbg"@ || l == "yts"@
                    || l == "www"@ || l == "tamilmv"@ || l == "1tamilmv"@ || l == "ing"@)
    };
    lemma_kept_is_filter(words(separators_to_spaces(s)), keep);
}

} // verus!
