//! The text dashboard's decisions: what a typed command means, which item an index names,
//! how answers to prompts are read, and the storage bar.

use vstd::prelude::*;
use crate::text::{
    all_digits, chars_eq_str, chars_of, digits_value, has_prefix, is_digit, lower_fixed, lowercase,
    lowercase_chars, parse_unsigned, parse_unsigned_spec, string_of, trim, trim_ws, unsigned_digits,
};

verus! {

/// A command typed at the dashboard prompt.
#[derive(Debug, Clone, PartialEq, Eq)]
pub enum DashboardCommand {
    /// `q`, `exit` or `0`.
    Quit,
    /// `r` or `refresh`.
    Refresh,
    /// `a` or `add`.
    Add,
    /// `c` or `clean`.
    Clean,
    /// `dt <n>`: cancel an active torrent; the text after the prefix.
    DeleteTorrent(String),
    /// `d <n>` or `rm <n>`: delete a completed folder; the text after the prefix.
    DeleteFolder(String),
    /// A number naming a listed folder: download it (zero-based position).
    Download(usize),
    /// A number naming no listed folder.
    InvalidItem,
    /// Anything else: nothing happens.
    Ignore,
}

/// The command text: the input trimmed, then lowercased.
pub open spec fn command_text(input: Seq<char>) -> Seq<char> {
    lowercase(trim_ws(input))
}

/// What a typed command means, for a listing of `folder_count` folders.
pub open spec fn dashboard_command_spec(input: Seq<char>, folder_count: int) -> DashboardCommandView {
    let cmd = command_text(input);
    if cmd == "q"@ || cmd == "exit"@ || cmd == "0"@ {
        DashboardCommandView::Quit
    } else if cmd == "r"@ || cmd == "refresh"@ {
        DashboardCommandView::Refresh
    } else if cmd == "a"@ || cmd == "add"@ {
        DashboardCommandView::Add
    } else if cmd == "c"@ || cmd == "clean"@ {
        DashboardCommandView::Clean
    } else if has_prefix(cmd, "dt "@) {
        DashboardCommandView::DeleteTorrent(cmd.skip("dt "@.len() as int))
    } else if has_prefix(cmd, "d "@) {
        DashboardCommandView::DeleteFolder(cmd.skip("d "@.len() as int))
    } else if has_prefix(cmd, "rm "@) {
        DashboardCommandView::DeleteFolder(cmd.skip("rm "@.len() as int))
    } else {
        match parse_unsigned_spec(cmd, usize::MAX as nat) {
            Some(idx) => if 0 < idx <= folder_count {
                DashboardCommandView::Download((idx - 1) as usize)
            } else {
                DashboardCommandView::InvalidItem
            },
            None => DashboardCommandView::Ignore,
        }
    }
}

/// `DashboardCommand` with its texts as character sequences.
pub enum DashboardCommandView {
    Quit,
    Refresh,
    Add,
    Clean,
    DeleteTorrent(Seq<char>),
    DeleteFolder(Seq<char>),
    Download(usize),
    InvalidItem,
    Ignore,
}

impl View for DashboardCommand {
    type V = DashboardCommandView;

    open spec fn view(&self) -> DashboardCommandView {
        match self {
            DashboardCommand::Quit => DashboardCommandView::Quit,
            DashboardCommand::Refresh => DashboardCommandView::Refresh,
            DashboardCommand::Add => DashboardCommandView::Add,
            DashboardCommand::Clean => DashboardCommandView::Clean,
            DashboardCommand::DeleteTorrent(s) => DashboardCommandView::DeleteTorrent(s@),
            DashboardCommand::DeleteFolder(s) => DashboardCommandView::DeleteFolder(s@),
            DashboardCommand::Download(i) => DashboardCommandView::Download(*i),
            DashboardCommand::InvalidItem => DashboardCommandView::InvalidItem,
            DashboardCommand::Ignore => DashboardCommandView::Ignore,
        }
    }
}

fn rest_after(v: &Vec<char>, n: usize) -> (r: String)
    requires
        n <= v.len(),
    ensures
        r@ == v@.skip(n as int),
{
    let mut out: Vec<char> = Vec::new();
    let mut k: usize = n;
    while k < v.len()
        invariant
            n <= k <= v.len(),
            out@ == v@.subrange(n as int, k as int),
        decreases v.len() - k,
    {
        out.push(v[k]);
        k = k + 1;
        assert(out@ =~= v@.subrange(n as int, k as int));
    }
    assert(v@.skip(n as int) =~= v@.subrange(n as int, v.len() as int));
    string_of(&out)
}

/// A run of digits is none of the command words, and starts with none of the prefixes.
proof fn lemma_digits_not_word(t: Seq<char>, w: Seq<char>)
    requires
        t.len() > 0,
        all_digits(t),
        w.len() > 0,
        !is_digit(w[0]),
    ensures
        t != w,
        !has_prefix(t, w),
{
    assert(is_digit(t[0]));
    if has_prefix(t, w) {
        assert(t.subrange(0, w.len() as int)[0] == w[0]);
    }
}

/// Reads a command typed at the dashboard prompt. A number from 1 to the count of listed folders
/// picks that folder (counted from zero in the result); a larger number that fits a `usize`
/// names no folder.
pub fn parse_dashboard_command(input: &str, folder_count: usize) -> (r: DashboardCommand)
    ensures
        r@ == dashboard_command_spec(input@, folder_count as int),
        ({
            let t = trim_ws(input@);
            t.len() > 0 && all_digits(t) && 1 <= digits_value(t) <= folder_count ==> r@
                == DashboardCommandView::Download((digits_value(t) - 1) as usize)
        }),
        ({
            let t = trim_ws(input@);
            t.len() > 0 && all_digits(t) && folder_count < digits_value(t) <= usize::MAX ==> r@
                == DashboardCommandView::InvalidItem
        }),
        trim_ws(input@) == "q"@ || trim_ws(input@) == "exit"@ || trim_ws(input@) == "0"@ ==> r@
            == DashboardCommandView::Quit,
        trim_ws(input@) == "r"@ || trim_ws(input@) == "refresh"@ ==> r@ == DashboardCommandView::Refresh,
        trim_ws(input@) == "a"@ || trim_ws(input@) == "add"@ ==> r@ == DashboardCommandView::Add,
        trim_ws(input@) == "c"@ || trim_ws(input@) == "clean"@ ==> r@ == DashboardCommandView::Clean,
{
    let t = trim(&chars_of(input));
    let cmd = lowercase_chars(&t);
    proof {
        reveal_strlit("q");
        reveal_strlit("exit");
        reveal_strlit("0");
        reveal_strlit("r");
        reveal_strlit("refresh");
        reveal_strlit("a");
        reveal_strlit("add");
        reveal_strlit("c");
        reveal_strlit("clean");
        if t@ == "q"@ || t@ == "exit"@ || t@ == "0"@ || t@ == "r"@ || t@ == "refresh"@ || t@ == "a"@
            || t@ == "add"@ || t@ == "c"@ || t@ == "clean"@ {
            assert forall|i: int| 0 <= i < t@.len() implies lower_fixed(#[trigger] t@[i]) by {
            }
            assert(cmd@ == t@);
        }
    }
    proof {
        if t@.len() > 0 && all_digits(t@) {
            assert forall|i: int| 0 <= i < t@.len() implies lower_fixed(#[trigger] t@[i]) by {
                assert(is_digit(t@[i]));
            }
            assert(cmd@ == t@);
            reveal_strlit("q");
            reveal_strlit("exit");
            reveal_strlit("r");
            reveal_strlit("refresh");
            reveal_strlit("a");
            reveal_strlit("add");
            reveal_strlit("c");
            reveal_strlit("clean");
            reveal_strlit("dt ");
            reveal_strlit("d ");
            reveal_strlit("rm ");
            reveal_strlit("0");
            lemma_digits_not_word(t@, "q"@);
            lemma_digits_not_word(t@, "exit"@);
            lemma_digits_not_word(t@, "r"@);
            lemma_digits_not_word(t@, "refresh"@);
            lemma_digits_not_word(t@, "a"@);
            lemma_digits_not_word(t@, "add"@);
            lemma_digits_not_word(t@, "c"@);
            lemma_digits_not_word(t@, "clean"@);
            lemma_digits_not_word(t@, "dt "@);
            lemma_digits_not_word(t@, "d "@);
            lemma_digits_not_word(t@, "rm "@);
            assert(is_digit(t@[0]));
            assert(unsigned_digits(t@) == t@);
            if t@ == "0"@ {
                assert(t@.drop_last() =~= Seq::<char>::empty());
                assert(t@.last() == '0');
                assert(digits_value(t@.drop_last()) == 0);
                assert(digits_value(t@) == digits_value(t@.drop_last()) * 10 + crate::text::digit_value(t@.last()));
                assert(digits_value(t@) == 0);
            }
        }
    }
    if chars_eq_str(&cmd, "q") || chars_eq_str(&cmd, "exit") || chars_eq_str(&cmd, "0") {
        DashboardCommand::Quit
    } else if chars_eq_str(&cmd, "r") || chars_eq_str(&cmd, "refresh") {
        DashboardCommand::Refresh
    } else if chars_eq_str(&cmd, "a") || chars_eq_str(&cmd, "add") {
        DashboardCommand::Add
    } else if chars_eq_str(&cmd, "c") || chars_eq_str(&cmd, "clean") {
        DashboardCommand::Clean
    } else if crate::text::starts_with(&cmd, &chars_of("dt ")) {
        DashboardCommand::DeleteTorrent(rest_after(&cmd, chars_of("dt ").len()))
    } else if crate::text::starts_with(&cmd, &chars_of("d ")) {
        DashboardCommand::DeleteFolder(rest_after(&cmd, chars_of("d ").len()))
    } else if crate::text::starts_with(&cmd, &chars_of("rm ")) {
        DashboardCommand::DeleteFolder(rest_after(&cmd, chars_of("rm ").len()))
    } else {
        match parse_unsigned(&cmd, usize::MAX as u64) {
            Some(idx) => if 0 < idx && idx <= folder_count as u64 {
                DashboardCommand::Download((idx - 1) as usize)
            } else {
                DashboardCommand::InvalidItem
            },
            None => DashboardCommand::Ignore,
        }
    }
}

/// The item an index argument names: `rest`, trimmed, read as a number (0 when it is not one),
/// counted from 1 among `len` items; `None` when out of range. Zero-based result.
pub open spec fn selected_index_spec(rest: Seq<char>, len: int) -> Option<usize> {
    let idx: int = match parse_unsigned_spec(trim_ws(rest), usize::MAX as nat) {
        Some(v) => v as int,
        None => 0,
    };
    if idx == 0 || idx > len { None } else { Some((idx - 1) as usize) }
}

/// Reads the index argument of a delete command.
pub fn select_index(rest: &str, len: usize) -> (r: Option<usize>)
    ensures
        r == selected_index_spec(rest@, len as int),
{
    let t = trim(&chars_of(rest));
    let idx: u64 = match parse_unsigned(&t, usize::MAX as u64) {
        Some(v) => v,
        None => 0,
    };
    if idx == 0 || idx > len as u64 { None } else { Some((idx - 1) as usize) }
}

/// An answer is "yes" to a `[y/N]` prompt: `y` or `Y` once trimmed.
pub open spec fn is_yes_spec(answer: Seq<char>) -> bool {
    trim_ws(answer) == "y"@ || trim_ws(answer) == "Y"@
}

/// Reads an answer to a `[y/N]` prompt.
pub fn is_yes(answer: &str) -> (r: bool)
    ensures
        r == is_yes_spec(answer@),
{
    let t = trim(&chars_of(answer));
    chars_eq_str(&t, "y") || chars_eq_str(&t, "Y")
}

/// Whether a downloaded folder is deleted from the cloud: without prompts (`-y`), as the
/// `delete_after_download` setting says; otherwise when the `[y/N]` answer is yes.
pub fn delete_cloud_item(non_interactive: bool, delete_after_download: bool, answer: &str) -> (r: bool)
    ensures
        r == (if non_interactive { delete_after_download } else { is_yes_spec(answer@) }),
{
    if non_interactive {
        delete_after_download
    } else {
        is_yes(answer)
    }
}

/// An answer is "yes" to a `[Y/n]` prompt: empty, `y` or `yes`, once trimmed and lowercased.
pub open spec fn is_default_yes_spec(answer: Seq<char>) -> bool {
    let t = lowercase(trim_ws(answer));
    t.len() == 0 || t == "y"@ || t == "yes"@
}

/// Reads an answer to a `[Y/n]` prompt.
pub fn is_default_yes(answer: &str) -> (r: bool)
    ensures
        r == is_default_yes_spec(answer@),
{
    let t = lowercase_chars(&trim(&chars_of(answer)));
    t.len() == 0 || chars_eq_str(&t, "y") || chars_eq_str(&t, "yes")
}

/// The answer confirms a permanent deletion: `DELETE` once trimmed.
pub fn is_delete_confirmation(answer: &str) -> (r: bool)
    ensures
        r == (trim_ws(answer@) == "DELETE"@),
{
    let t = trim(&chars_of(answer));
    chars_eq_str(&t, "DELETE")
}

/// Width of the storage bar, in cells.
pub const STORAGE_BAR_WIDTH: usize = 20;

/// Filled cells of the storage bar: the used share of twenty cells, rounded down, at most twenty
/// (none when the maximum is zero).
pub open spec fn filled_cells(used: u64, max: u64) -> int {
    if max == 0 {
        0
    } else {
        let f = (used * 20) / (max as int);
        let f2: int = if f <= usize::MAX { f } else { 0 };
        if f2 < 20 { f2 } else { 20 }
    }
}

/// `n` copies of `c`.
pub open spec fn repeat_char(c: char, n: nat) -> Seq<char> {
    Seq::new(n, |_i: int| c)
}

fn repeat(c: char, n: usize) -> (r: String)
    ensures
        r@ == repeat_char(c, n as nat),
{
    let mut v: Vec<char> = Vec::new();
    let mut k: usize = 0;
    while k < n
        invariant
            k <= n,
            v@ == repeat_char(c, k as nat),
        decreases n - k,
    {
        v.push(c);
        k = k + 1;
        assert(v@ =~= repeat_char(c, k as nat));
    }
    string_of(&v)
}

/// The storage bar as its filled part (`█`) and its empty part (`░`).
pub fn storage_progress_bar(used: u64, max: u64) -> (r: (String, String))
    requires
        used * 20 <= u64::MAX,
    ensures
        r.0@ == repeat_char('█', filled_cells(used, max) as nat),
        r.1@ == repeat_char('░', (20 - filled_cells(used, max)) as nat),
{
    if max == 0 {
        return (repeat('█', 0), repeat('░', STORAGE_BAR_WIDTH));
    }
    let f = (used * 20) / max;
    let f2: usize = if f <= usize::MAX as u64 { f as usize } else { 0 };
    let filled = if f2 < STORAGE_BAR_WIDTH { f2 } else { STORAGE_BAR_WIDTH };
    (repeat('█', filled), repeat('░', STORAGE_BAR_WIDTH - filled))
}

} // verus!
