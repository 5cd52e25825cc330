//! The history command set and the decisions behind it: which files count as videos, how
//! manual-rename answers are read, and the record made for a file found on disk.

use vstd::prelude::*;
use crate::gemini::{extension_of, parse_with_regex, path_file_name, MediaType};
use crate::history::{HistoryEntry, RenameStatus};
use crate::text::{
    chars_eq_str, chars_of, lowercase, lowercase_chars, parse_unsigned, parse_unsigned_spec,
    string_of, trim, trim_ws,
};

verus! {

/// Subcommands of `history`.
#[derive(Debug, Clone)]
pub enum HistoryCommands {
    /// List all downloaded media items in history
    List,
    /// Re-analyze and rename an entry with Gemini AI
    Rename {
        /// Download ID or prefix to rename
        id: String,
    },
    /// Manually rename an entry's title, year, or season/episode
    Manual {
        /// Download ID or prefix to rename
        id: String,
    },
    /// Delete a downloaded item from disk and history (requires typing DELETE)
    Delete {
        /// Download ID or prefix to delete
        id: String,
    },
    /// Scan Jellyfin library to add untracked media files to history
    Scan,
}

/// `std::path::Path::extension`, through `Path::file_name`: the extension of a path's last
/// component.
pub open spec fn path_extension(path: Seq<char>) -> Option<Seq<char>> {
    match path_file_name(path) {
        Some(n) => extension_of(n),
        None => None,
    }
}

/// A video container extension, compared in lowercase.
pub open spec fn is_video_ext(e: Seq<char>) -> bool {
    let l = lowercase(e);
    l == "mkv"@ || l == "mp4"@ || l == "avi"@ || l == "mov"@ || l == "webm"@
}

/// Whether a path names a video file by its extension.
pub fn is_video_file(path: &str) -> (r: bool)
    ensures
        r == (match path_extension(path@) {
            Some(e) => is_video_ext(e),
            None => false,
        }),
{
    match crate::gemini::file_extension(path) {
        Some(e) => {
            let l = lowercase_chars(&e);
            chars_eq_str(&l, "mkv") || chars_eq_str(&l, "mp4") || chars_eq_str(&l, "avi")
                || chars_eq_str(&l, "mov") || chars_eq_str(&l, "webm")
        },
        None => false,
    }
}

/// The title a manual rename keeps: the typed text, trimmed, or the current title when blank.
pub fn manual_title(input: &str, current: &String) -> (r: String)
    ensures
        r@ == (if trim_ws(input@).len() == 0 { current@ } else { trim_ws(input@) }),
{
    let t = trim(&chars_of(input));
    if t.len() == 0 {
        current.clone()
    } else {
        string_of(&t)
    }
}

/// The year a manual rename keeps: the current one when the answer is blank, else the trimmed
/// answer read as a number (`None` when it is not one).
pub fn manual_year(input: &str, current: Option<u32>) -> (r: Option<u32>)
    ensures
        r == (if trim_ws(input@).len() == 0 {
            current
        } else {
            match parse_unsigned_spec(trim_ws(input@), u32::MAX as nat) {
                Some(v) => Some(v as u32),
                None => None,
            }
        }),
{
    let t = trim(&chars_of(input));
    if t.len() == 0 {
        current
    } else {
        match parse_unsigned(&t, 4294967295u64) {
            Some(v) => Some(v as u32),
            None => None,
        }
    }
}

/// Season and episode of an entry, when it has both.
pub fn season_episode(entry: &HistoryEntry) -> (r: Option<(u32, u32)>)
    ensures
        r == (match (entry.season, entry.episode) {
            (Some(s), Some(e)) => Some((s, e)),
            _ => None,
        }),
{
    match (entry.season, entry.episode) {
        (Some(s), Some(e)) => Some((s, e)),
        _ => None,
    }
}

/// `std::path::Path::starts_with`: whether `base`'s components begin `path`'s components.
pub uninterp spec fn path_starts_with(path: Seq<char>, base: Seq<char>) -> bool;

/// `std::path::Path::starts_with`. The result is named: it depends on the two paths alone.
#[verifier::external_body]
fn starts_with_path(path: &str, base: &str) -> (r: bool)
    ensures
        r == path_starts_with(path@, base@),
{
    std::path::Path::new(path).starts_with(base)
}

/// `PartialEq` of `std::path::Path`: whether two paths have the same components.
pub uninterp spec fn same_path(a: Seq<char>, b: Seq<char>) -> bool;

/// `PartialEq` of `std::path::Path`. The result is named: it depends on the two paths alone.
#[verifier::external_body]
fn paths_equal(a: &str, b: &str) -> (r: bool)
    ensures
        r == same_path(a@, b@),
{
    std::path::Path::new(a) == std::path::Path::new(b)
}

/// Whether the history already records a file at `path`.
pub fn history_has_path(entries: &Vec<HistoryEntry>, path: &str) -> (r: bool)
    ensures
        r == exists|i: int| 0 <= i < entries@.len() && same_path((#[trigger] entries@[i]).file_path@, path@),
{
    let mut i: usize = 0;
    while i < entries.len()
        invariant
            i <= entries@.len(),
            forall|j: int| 0 <= j < i ==> !same_path((#[trigger] entries@[j]).file_path@, path@),
        decreases entries@.len() - i,
    {
        if paths_equal(entries[i].file_path.as_str(), path) {
            return true;
        }
        i = i + 1;
    }
    false
}

/// The history record of a video found under the media root during a scan: named by the offline
/// parser, typed as a show when it lies under `<root>/shows`, marked as a regex rename.
pub fn discovered_entry(
    id: String,
    file_name: &str,
    path: &str,
    shows_root: &str,
    file_size: u64,
    downloaded_at: String,
) -> (r: HistoryEntry)
    ensures
        r.id == id,
        r.original_name@ == file_name@,
        r.clean_title@ == parse_with_regex_title(file_name@),
        r.file_path@ == path@,
        r.file_size == file_size,
        r.media_type == (if path_starts_with(path@, shows_root@) { MediaType::Show } else { MediaType::Movie }),
        r.year == crate::gemini::parsed(file_name@).year,
        r.season == crate::gemini::parsed(file_name@).season,
        r.episode == crate::gemini::parsed(file_name@).episode,
        r.downloaded_at == downloaded_at,
        r.rename_status == RenameStatus::RegexFallback,
{
    let info = parse_with_regex(file_name);
    let show = starts_with_path(path, shows_root);
    HistoryEntry {
        id,
        original_name: string_of(&chars_of(file_name)),
        clean_title: info.title,
        file_path: string_of(&chars_of(path)),
        file_size,
        media_type: if show { MediaType::Show } else { MediaType::Movie },
        year: info.year,
        season: info.season,
        episode: info.episode,
        downloaded_at,
        rename_status: RenameStatus::RegexFallback,
    }
}

/// The title the offline parser gives a file name.
pub open spec fn parse_with_regex_title(raw: Seq<char>) -> Seq<char> {
    crate::gemini::parsed(raw).title
}

} // verus!
