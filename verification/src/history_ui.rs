//! Text of the history list in the dashboard.

use vstd::prelude::*;
use crate::history::{HistoryEntry, RenameStatus};
use crate::text::{decimal, pad2, push_decimal, push_pad2, push_str, string_of, chars_of, push_chars};

verus! {

/// Label of the renaming method.
pub open spec fn method_label(s: RenameStatus) -> Seq<char> {
    match s {
        RenameStatus::Gemini => "AI"@,
        RenameStatus::RegexFallback => "Regex"@,
        RenameStatus::Manual => "Manual"@,
    }
}

/// ` (<year>)` when the entry has a year.
pub open spec fn year_suffix(year: Option<u32>) -> Seq<char> {
    match year {
        Some(y) => " ("@ + decimal(y as nat) + ")"@,
        None => seq![],
    }
}

/// ` S<ss>E<ee>` when the entry has both a season and an episode.
pub open spec fn episode_suffix(season: Option<u32>, episode: Option<u32>) -> Seq<char> {
    match (season, episode) {
        (Some(s), Some(e)) => " S"@ + pad2(s as nat) + "E"@ + pad2(e as nat),
        _ => seq![],
    }
}

/// The line of the history list for the entry at `index`:
/// `<cursor>[<n>] 🎬 <title><year><episode> — <MiB> MB [<method>] [<on disk>] (<when>)`.
pub open spec fn history_line_spec(e: HistoryEntry, index: usize, selected: bool, exists: bool) -> Seq<char> {
    (if selected { " ❯ "@ } else { "   "@ }) + "["@ + decimal(index as nat + 1) + "] 🎬 "@
        + e.clean_title@ + year_suffix(e.year) + episode_suffix(e.season, e.episode) + " — "@
        + decimal((e.file_size / 1048576) as nat) + " MB ["@ + method_label(e.rename_status) + "] ["@
        + (if exists { "✔"@ } else { "✖ Missing"@ }) + "] ("@ + e.downloaded_at@ + ")"@
}

/// Appends the year suffix of an entry.
fn push_year_suffix(v: &mut Vec<char>, year: Option<u32>)
    ensures
        final(v)@ == old(v)@ + year_suffix(year),
{
    match year {
        Some(y) => {
            push_str(v, " (");
            push_decimal(v, y as u128);
            push_str(v, ")");
        },
        None => {},
    }
    proof {
        assert(final(v)@ =~= old(v)@ + year_suffix(year));
    }
}

/// Appends the season/episode suffix of an entry.
fn push_episode_suffix(v: &mut Vec<char>, season: Option<u32>, episode: Option<u32>)
    ensures
        final(v)@ == old(v)@ + episode_suffix(season, episode),
{
    match (season, episode) {
        (Some(s), Some(ep)) => {
            push_str(v, " S");
            push_pad2(v, s as u128);
            push_str(v, "E");
            push_pad2(v, ep as u128);
        },
        _ => {},
    }
    proof {
        assert(final(v)@ =~= old(v)@ + episode_suffix(season, episode));
    }
}

/// Appends the label of the renaming method.
fn push_method_label(v: &mut Vec<char>, s: RenameStatus)
    ensures
        final(v)@ == old(v)@ + method_label(s),
{
    match s {
        RenameStatus::Gemini => push_str(v, "AI"),
        RenameStatus::RegexFallback => push_str(v, "Regex"),
        RenameStatus::Manual => push_str(v, "Manual"),
    }
}

/// Builds one line of the history list.
pub fn history_line(e: &HistoryEntry, index: usize, selected: bool, exists: bool) -> (r: String)
    requires
        index < usize::MAX,
    ensures
        r@ == history_line_spec(*e, index, selected, exists),
{
    let mut v: Vec<char> = Vec::new();
    if selected {
        push_str(&mut v, " ❯ ");
    } else {
        push_str(&mut v, "   ");
    }
    push_str(&mut v, "[");
    push_decimal(&mut v, (index + 1) as u128);
    push_str(&mut v, "] 🎬 ");
    push_chars(&mut v, &chars_of(e.clean_title.as_str()));
    push_year_suffix(&mut v, e.year);
    push_episode_suffix(&mut v, e.season, e.episode);
    push_str(&mut v, " — ");
    push_decimal(&mut v, (e.file_size / 1048576) as u128);
    push_str(&mut v, " MB [");
    push_method_label(&mut v, e.rename_status);
    push_str(&mut v, "] [");
    if exists {
        push_str(&mut v, "✔");
    } else {
        push_str(&mut v, "✖ Missing");
    }
    push_str(&mut v, "] (");
    push_chars(&mut v, &chars_of(e.downloaded_at.as_str()));
    push_str(&mut v, ")");
    proof {
        assert(v@ =~= history_line_spec(*e, index, selected, exists));
    }
    string_of(&v)
}

/// The year and season/episode suffixes of a title, as the history listings show them.
pub fn title_suffixes(year: Option<u32>, season: Option<u32>, episode: Option<u32>) -> (r: String)
    ensures
        r@ == year_suffix(year) + episode_suffix(season, episode),
{
    let mut v: Vec<char> = Vec::new();
    push_year_suffix(&mut v, year);
    push_episode_suffix(&mut v, season, episode);
    proof {
        assert(v@ =~= year_suffix(year) + episode_suffix(season, episode));
    }
    string_of(&v)
}

/// The line shown when the history holds no entry.
pub const HISTORY_EMPTY_TEXT: &'static str =
    "  (no download history recorded yet. Run 'seedr-dl history scan' to index)";

/// The title of the history panel: ` Downloaded Media History & Management (<count>) `.
pub fn history_list_title(count: usize) -> (r: String)
    ensures
        r@ == " Downloaded Media History & Management ("@ + decimal(count as nat) + ") "@,
{
    let mut v: Vec<char> = Vec::new();
    push_str(&mut v, " Downloaded Media History & Management (");
    push_decimal(&mut v, count as u128);
    push_str(&mut v, ") ");
    string_of(&v)
}

} // verus!
