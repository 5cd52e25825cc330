//! Texts and sizes of the full-screen dashboard.

use vstd::prelude::*;
use crate::text::{decimal, push_chars, push_decimal, push_str, chars_of, string_of};

verus! {

/// Cloud storage in whole mebibytes: used, capacity, and free (never below zero).
#[derive(Debug, Clone, Copy, PartialEq, Eq, Structural)]
pub struct StorageFigures {
    pub used_mb: u64,
    pub max_mb: u64,
    pub free_mb: u64,
}

/// The storage figures for `used` of `max` bytes.
pub fn storage_figures(used: u64, max: u64) -> (r: StorageFigures)
    ensures
        r.used_mb == used / 1048576,
        r.max_mb == max / 1048576,
        r.free_mb == (if max / 1048576 >= used / 1048576 { max / 1048576 - used / 1048576 } else { 0 }),
{
    let used_mb = used / 1048576;
    let max_mb = max / 1048576;
    let free_mb = if max_mb >= used_mb { max_mb - used_mb } else { 0 };
    StorageFigures { used_mb, max_mb, free_mb }
}

/// `<used> MB / <max> MB (<free> MB free)`.
pub open spec fn storage_label_spec(f: StorageFigures) -> Seq<char> {
    decimal(f.used_mb as nat) + " MB / "@ + decimal(f.max_mb as nat) + " MB ("@ + decimal(f.free_mb as nat)
        + " MB free)"@
}

/// The label of the storage gauge.
pub fn storage_label(f: StorageFigures) -> (r: String)
    ensures
        r@ == storage_label_spec(f),
{
    let mut v: Vec<char> = Vec::new();
    push_decimal(&mut v, f.used_mb as u128);
    push_str(&mut v, " MB / ");
    push_decimal(&mut v, f.max_mb as u128);
    push_str(&mut v, " MB (");
    push_decimal(&mut v, f.free_mb as u128);
    push_str(&mut v, " MB free)");
    string_of(&v)
}

/// The line of the completed-items list for the folder at `index`:
/// `<cursor>[<n>] 📁 <name> (<MiB> MB)`, the size counting as zero when unknown.
pub open spec fn folder_item_spec(index: usize, name: Seq<char>, size: Option<u64>, selected: bool) -> Seq<char> {
    let mb: u64 = match size {
        Some(s) => s / 1048576,
        None => 0,
    };
    (if selected { " ❯ "@ } else { "   "@ }) + "["@ + decimal(index as nat + 1) + "] 📁 "@ + name + " ("@
        + decimal(mb as nat) + " MB)"@
}

/// Builds one line of the completed-items list.
pub fn folder_item(index: usize, name: &str, size: Option<u64>, selected: bool) -> (r: String)
    requires
        index < usize::MAX,
    ensures
        r@ == folder_item_spec(index, name@, size, selected),
{
    let mb: u64 = match size {
        Some(s) => s / 1048576,
        None => 0,
    };
    let mut v: Vec<char> = Vec::new();
    if selected {
        push_str(&mut v, " ❯ ");
    } else {
        push_str(&mut v, "   ");
    }
    push_str(&mut v, "[");
    push_decimal(&mut v, (index + 1) as u128);
    push_str(&mut v, "] 📁 ");
    push_chars(&mut v, &chars_of(name));
    push_str(&mut v, " (");
    push_decimal(&mut v, mb as u128);
    push_str(&mut v, " MB)");
    proof {
        assert(v@ =~= folder_item_spec(index, name@, size, selected));
    }
    string_of(&v)
}

/// Rows of the active-downloads panel: two of border plus one per torrent, at most eight; a
/// count too large for a row number gives four.
pub open spec fn torrents_panel_rows(count: int) -> int {
    if count + 2 <= 65535 {
        if count + 2 < 8 { count + 2 } else { 8 }
    } else {
        4
    }
}

/// The height of the active-downloads panel.
pub fn torrents_panel_height(count: usize) -> (r: u16)
    requires
        count < usize::MAX - 1,
    ensures
        r == torrents_panel_rows(count as int),
{
    let n = count + 2;
    if n <= 65535 {
        if n < 8 { n as u16 } else { 8 }
    } else {
        4
    }
}

/// The share left on each side of a centred pop-up that takes `percent` of the screen.
pub fn popup_margin(percent: u16) -> (r: u16)
    requires
        percent <= 100,
    ensures
        r == (100 - percent) / 2,
{
    (100 - percent) / 2
}

/// The line shown when the cloud holds no completed item.
pub const FOLDERS_EMPTY_TEXT: &'static str = "  (no completed files in cloud)";

/// The title of the completed-items panel: ` Completed Cloud Items (<count>) `.
pub fn folders_title(count: usize) -> (r: String)
    ensures
        r@ == " Completed Cloud Items ("@ + decimal(count as nat) + ") "@,
{
    let mut v: Vec<char> = Vec::new();
    push_str(&mut v, " Completed Cloud Items (");
    push_decimal(&mut v, count as u128);
    push_str(&mut v, ") ");
    string_of(&v)
}

} // verus!
