//! The download history: records of ingested media and the list operations on them.

use vstd::prelude::*;
use crate::config::{config_dir, config_dir_spec};
use crate::gemini::MediaType;
use crate::paths::{join_path, joined};
use crate::text::{
    chars_eq, chars_of, decimal, has_prefix, lemma_decimal_parses, parse_unsigned,
    parse_unsigned_spec, push_decimal, push_str, starts_with, string_of, trim, trim_ws,
};

verus! {

/// How media was renamed and structured.
#[derive(Debug, Clone, Copy, PartialEq, Eq, Structural)]
pub enum RenameStatus {
    /// Renamed using Gemini AI.
    Gemini,
    /// Renamed using offline regex parser.
    RegexFallback,
    /// Manually renamed by user.
    Manual,
}

/// A record of a completed ingestion stored in `~/.config/seedr-dl/history.json`.
#[derive(Debug, Clone)]
pub struct HistoryEntry {
    /// Unique identifier for this download record.
    pub id: String,
    /// Original torrent / file name from Seedr.
    pub original_name: String,
    /// Cleaned canonical title.
    pub clean_title: String,
    /// Current path on disk in Jellyfin media library.
    pub file_path: String,
    /// Total file size in bytes.
    pub file_size: u64,
    /// Type of media (Movie or Show).
    pub media_type: MediaType,
    /// Release year if identified.
    pub year: Option<u32>,
    /// TV season number if identified.
    pub season: Option<u32>,
    /// TV episode number if identified.
    pub episode: Option<u32>,
    /// Human-readable download timestamp.
    pub downloaded_at: String,
    /// Whether AI, regex, or manual renaming was used.
    pub rename_status: RenameStatus,
}

/// Returns the file path for the history database.
pub fn history_path(home: &str) -> (r: String)
    ensures
        r@ == joined(config_dir_spec(home@), "history.json"@),
{
    let dir = config_dir(home);
    join_path(dir.as_str(), "history.json")
}

/// Whether the text of a history file holds nothing but whitespace (an empty history).
pub fn history_text_is_blank(content: &str) -> (r: bool)
    ensures
        r == (trim_ws(content@).len() == 0),
{
    trim(&chars_of(content)).len() == 0
}

/// The identifier made from a millisecond timestamp: `dl_` and the decimal number.
pub open spec fn id_for_millis(ms: nat) -> Seq<char> {
    "dl_"@ + decimal(ms)
}

/// Milliseconds since the Unix epoch by the system clock (zero for a clock before the epoch):
/// `SystemTime::now`, measured from `UNIX_EPOCH`. Nothing is promised of the value.
#[verifier::external_body]
fn unix_millis() -> u128 {
    std::time::SystemTime::now().duration_since(std::time::UNIX_EPOCH).map_or(0, |d| d.as_millis())
}

/// The identifier for a given millisecond timestamp.
pub fn id_from_millis(ms: u128) -> (r: String)
    ensures
        r@ == id_for_millis(ms as nat),
{
    let mut v: Vec<char> = Vec::new();
    push_str(&mut v, "dl_");
    push_decimal(&mut v, ms);
    string_of(&v)
}

/// Generates a unique, timestamp-based ID for history entries.
pub fn generate_id() -> (r: String)
    ensures
        exists|ms: nat| r@ == id_for_millis(ms),
{
    let ms = unix_millis();
    id_from_millis(ms)
}

/// The number of an identifier `dl_<digits>`, when it reads as a `u64`.
pub open spec fn id_number(id: Seq<char>) -> Option<nat> {
    if has_prefix(id, "dl_"@) { parse_unsigned_spec(id.skip(3), u64::MAX as nat) } else { None }
}

/// The largest identifier number among the entries (-1 when none has one).
pub open spec fn largest_id_number(es: Seq<HistoryEntry>) -> int
    decreases es.len(),
{
    if es.len() == 0 {
        -1
    } else {
        let r = largest_id_number(es.drop_last());
        match id_number(es.last().id@) {
            Some(v) => if v > r { v as int } else { r },
            None => r,
        }
    }
}

proof fn lemma_largest_bounds(es: Seq<HistoryEntry>)
    ensures
        -1 <= largest_id_number(es) <= u64::MAX,
        forall|i: int| 0 <= i < es.len() ==> (id_number(#[trigger] es[i].id@) matches Some(v) ==> v
            <= largest_id_number(es)),
    decreases es.len(),
{
    if es.len() > 0 {
        let p = es.drop_last();
        lemma_largest_bounds(p);
        assert forall|i: int| 0 <= i < es.len() implies (id_number(#[trigger] es[i].id@) matches Some(v) ==> v
            <= largest_id_number(es)) by {
            if i < es.len() - 1 {
                assert(es[i] == p[i]);
            }
        }
    }
}

fn id_number_of(id: &String) -> (r: Option<u64>)
    ensures
        match id_number(id@) {
            Some(v) => r == Some(v as u64),
            None => r is None,
        },
{
    proof {
        reveal_strlit("dl_");
    }
    let c = chars_of(id.as_str());
    if !starts_with(&c, &chars_of("dl_")) {
        return None;
    }
    let mut rest: Vec<char> = Vec::new();
    let mut k: usize = 3;
    while k < c.len()
        invariant
            3 <= k <= c.len(),
            c@.len() >= 3,
            rest@ == c@.subrange(3, k as int),
        decreases c.len() - k,
    {
        rest.push(c[k]);
        k = k + 1;
        assert(rest@ =~= c@.subrange(3, k as int));
    }
    assert(rest@ =~= id@.skip(3));
    parse_unsigned(&rest, u64::MAX)
}

/// A clock reading in milliseconds as a `u64`, saturating at the largest `u64`.
pub open spec fn clamp_ms(clock_ms: u128) -> u64 {
    if clock_ms <= u64::MAX { clock_ms as u64 } else { u64::MAX }
}

/// The number of a fresh identifier: the clock's milliseconds, or one past the largest number
/// already used when the clock does not exceed it; none when the largest `u64` is used.
pub open spec fn next_id_number_spec(clock_ms: u128, largest: Option<u64>) -> Option<u64> {
    match largest {
        None => Some(clamp_ms(clock_ms)),
        Some(l) => if l == u64::MAX {
            None
        } else if clamp_ms(clock_ms) > l {
            Some(clamp_ms(clock_ms))
        } else {
            Some((l + 1) as u64)
        },
    }
}

/// Chooses the number of a fresh identifier from a clock reading and the largest number in use.
pub fn next_id_number(clock_ms: u128, largest: Option<u64>) -> (r: Option<u64>)
    ensures
        r == next_id_number_spec(clock_ms, largest),
{
    let ms: u64 = if clock_ms <= 18446744073709551615u128 { clock_ms as u64 } else { u64::MAX };
    match largest {
        None => Some(ms),
        Some(l) => if l == u64::MAX {
            None
        } else if ms > l {
            Some(ms)
        } else {
            Some(l + 1)
        },
    }
}

/// The largest identifier number as an optional `u64`.
pub open spec fn largest_as_option(es: Seq<HistoryEntry>) -> Option<u64> {
    if largest_id_number(es) < 0 { None } else { Some(largest_id_number(es) as u64) }
}

/// The largest number the entries' identifiers use, if any.
pub fn largest_id(entries: &Vec<HistoryEntry>) -> (r: Option<u64>)
    ensures
        r == largest_as_option(entries@),
{
    let mut largest: Option<u64> = None;
    let mut i: usize = 0;
    while i < entries.len()
        invariant
            i <= entries@.len(),
            (match largest {
                Some(v) => v as int,
                None => -1int,
            }) == largest_id_number(entries@.take(i as int)),
        decreases entries@.len() - i,
    {
        let ghost pre = entries@.take(i as int);
        let ghost cur = entries@.take(i + 1);
        assert(cur.drop_last() =~= pre);
        assert(cur.last() == entries@[i as int]);
        match id_number_of(&entries[i].id) {
            Some(v) => {
                match largest {
                    Some(l) => if v > l {
                        largest = Some(v);
                    },
                    None => {
                        largest = Some(v);
                    },
                }
            },
            None => {},
        }
        i = i + 1;
    }
    assert(entries@.take(i as int) =~= entries@);
    proof {
        lemma_largest_bounds(entries@);
    }
    largest
}

/// The fresh identifier for a record added to `entries` at clock reading `clock_ms`:
/// `dl_` and `next_id_number_spec` of the clock and the largest number in use. No entry has it.
pub fn unique_id_at(entries: &Vec<HistoryEntry>, clock_ms: u128) -> (r: Option<String>)
    ensures
        match next_id_number_spec(clock_ms, largest_as_option(entries@)) {
            Some(n) => r matches Some(id) && id@ == id_for_millis(n as nat),
            None => r is None,
        },
        r matches Some(id) ==> !has_id(entries@, id@),
{
    let largest = largest_id(entries);
    let n = match next_id_number(clock_ms, largest) {
        Some(n) => n,
        None => return None,
    };
    let id = id_from_millis(n as u128);
    proof {
        reveal_strlit("dl_");
        lemma_largest_bounds(entries@);
        lemma_decimal_parses(n as nat);
        assert(n as int > largest_id_number(entries@));
        assert(id@.skip(3) =~= decimal(n as nat));
        assert(id@.subrange(0, 3) =~= "dl_"@);
        assert(id_number(id@) == Some(n as nat));
        if has_id(entries@, id@) {
            let j = choose|j: int| 0 <= j < entries@.len() && (#[trigger] entries@[j]).id@ == id@;
            assert(id_number(entries@[j].id@) == Some(n as nat));
        }
    }
    Some(id)
}

/// A fresh identifier for a record about to be added to `entries`: `unique_id_at` at the
/// system clock's current millisecond count. No entry has it; `None` only when an identifier
/// already uses the largest `u64`.
pub fn unique_id(entries: &Vec<HistoryEntry>) -> (r: Option<String>)
    ensures
        exists|clock_ms: u128| match #[trigger] next_id_number_spec(clock_ms, largest_as_option(entries@)) {
            Some(n) => r matches Some(id) && id@ == id_for_millis(n as nat),
            None => r is None,
        },
        r matches Some(id) ==> !has_id(entries@, id@),
        r is None <==> largest_id_number(entries@) == u64::MAX,
{
    proof {
        lemma_largest_bounds(entries@);
    }
    let clock = unix_millis();
    let r = unique_id_at(entries, clock);
    assert(match next_id_number_spec(clock, largest_as_option(entries@)) {
        Some(n) => r matches Some(id) && id@ == id_for_millis(n as nat),
        None => r is None,
    });
    r
}

/// Identifiers stay distinct from one record to the next: an identifier that is fresh for the
/// history after `e` was recorded differs from `e`'s, and a fresh number exceeds `e`'s number.
pub proof fn law_fresh_id_after_add(es: Seq<HistoryEntry>, e: HistoryEntry, id2: Seq<char>, n2: nat)
    requires
        !has_id(added(es, e), id2),
        n2 > largest_id_number(added(es, e)),
    ensures
        id2 != e.id@,
        id_number(e.id@) matches Some(v) ==> v < n2,
{
    let a = added(es, e);
    assert(a[0] == e);
    lemma_largest_bounds(a);
    if id2 == e.id@ {
        assert(a[0].id@ == id2);
    }
}

/// The entries whose id is not `id`, in order.
pub open spec fn without_id(es: Seq<HistoryEntry>, id: Seq<char>) -> Seq<HistoryEntry>
    decreases es.len(),
{
    if es.len() == 0 {
        seq![]
    } else {
        let r = without_id(es.drop_last(), id);
        if es.last().id@ == id { r } else { r.push(es.last()) }
    }
}

/// The history after recording `e`: `e` first, then the other entries without its id.
pub open spec fn added(es: Seq<HistoryEntry>, e: HistoryEntry) -> Seq<HistoryEntry> {
    seq![e] + without_id(es, e.id@)
}

/// `i` is the position of the first entry with id `id`.
pub open spec fn is_first_id(es: Seq<HistoryEntry>, id: Seq<char>, i: int) -> bool {
    &&& 0 <= i < es.len()
    &&& es[i].id@ == id
    &&& forall|j: int| 0 <= j < i ==> (#[trigger] es[j]).id@ != id
}

/// Some entry has id `id`.
pub open spec fn has_id(es: Seq<HistoryEntry>, id: Seq<char>) -> bool {
    exists|i: int| 0 <= i < es.len() && (#[trigger] es[i]).id@ == id
}

/// Position of the first entry with id `id` (meaningful when there is one).
pub open spec fn first_id(es: Seq<HistoryEntry>, id: Seq<char>) -> int {
    choose|i: int| is_first_id(es, id, i)
}

/// The history after updating: the first entry with `e`'s id is replaced by `e`.
pub open spec fn updated(es: Seq<HistoryEntry>, e: HistoryEntry) -> Seq<HistoryEntry> {
    if has_id(es, e.id@) { es.update(first_id(es, e.id@), e) } else { es }
}

/// The history after removing by id, and the entry removed: the first with that id.
pub open spec fn removed(es: Seq<HistoryEntry>, id: Seq<char>) -> (Seq<HistoryEntry>, Option<HistoryEntry>) {
    if has_id(es, id) {
        (es.remove(first_id(es, id)), Some(es[first_id(es, id)]))
    } else {
        (es, None)
    }
}

/// An entry answers a (trimmed) query when its id is the query or starts with it.
pub open spec fn answers(e: HistoryEntry, t: Seq<char>) -> bool {
    e.id@ == t || has_prefix(e.id@, t)
}

/// `i` is the position of the first entry answering the trimmed query `t`.
pub open spec fn is_first_answer(es: Seq<HistoryEntry>, t: Seq<char>, i: int) -> bool {
    &&& 0 <= i < es.len()
    &&& answers(es[i], t)
    &&& forall|j: int| 0 <= j < i ==> !answers(#[trigger] es[j], t)
}

/// The entry a query finds: the first whose id equals, or starts with, the trimmed query.
pub open spec fn found(es: Seq<HistoryEntry>, query: Seq<char>) -> Option<HistoryEntry> {
    let t = trim_ws(query);
    if exists|i: int| 0 <= i < es.len() && answers(#[trigger] es[i], t) {
        Some(es[choose|i: int| is_first_answer(es, t, i)])
    } else {
        None
    }
}

proof fn lemma_first_id_is(es: Seq<HistoryEntry>, id: Seq<char>, i: int)
    requires
        is_first_id(es, id, i),
    ensures
        has_id(es, id),
        first_id(es, id) == i,
{
    assert(es[i].id@ == id);
    let k = first_id(es, id);
    assert(is_first_id(es, id, k));
    if k < i {
        assert(es[k].id@ != id);
    } else if k > i {
        assert(es[i].id@ != id);
    }
}

proof fn lemma_first_answer_is(es: Seq<HistoryEntry>, t: Seq<char>, i: int)
    requires
        is_first_answer(es, t, i),
    ensures
        exists|j: int| 0 <= j < es.len() && answers(#[trigger] es[j], t),
        (choose|j: int| is_first_answer(es, t, j)) == i,
{
    assert(answers(es[i], t));
    let k = choose|j: int| is_first_answer(es, t, j);
    assert(is_first_answer(es, t, k));
    if k < i {
        assert(!answers(es[k], t));
    } else if k > i {
        assert(!answers(es[i], t));
    }
}

fn same_id(e: &HistoryEntry, id: &String) -> (r: bool)
    ensures
        r == (e.id@ == id@),
{
    e.id == *id
}

/// Adds a new entry at the front of the history, replacing any entry with the same id.
pub fn add_history_entry(entries: Vec<HistoryEntry>, entry: HistoryEntry) -> (r: Vec<HistoryEntry>)
    ensures
        r@ == added(entries@, entry),
{
    let mut src = entries;
    let ghost orig = src@;
    let ghost mut k: int = 0;
    let mut kept: Vec<HistoryEntry> = Vec::new();
    while src.len() > 0
        invariant
            0 <= k <= orig.len(),
            src@ == orig.skip(k),
            kept@ == without_id(orig.take(k), entry.id@),
        decreases src.len(),
    {
        let e = src.remove(0);
        proof {
            assert(e == orig[k]);
            assert(orig.take(k + 1).drop_last() =~= orig.take(k));
            assert(orig.take(k + 1).last() == orig[k]);
        }
        if !same_id(&e, &entry.id) {
            kept.push(e);
        }
        proof {
            k = k + 1;
            assert(src@ =~= orig.skip(k));
        }
    }
    assert(orig.take(k) =~= orig);
    kept.insert(0, entry);
    assert(kept@ =~= added(entries@, entry));
    kept
}

/// Replaces the first entry with the same id as `entry`; tells whether there was one.
pub fn update_history_entry(entries: &mut Vec<HistoryEntry>, entry: HistoryEntry) -> (r: bool)
    ensures
        r == has_id(old(entries)@, entry.id@),
        final(entries)@ == updated(old(entries)@, entry),
{
    let mut i: usize = 0;
    while i < entries.len()
        invariant
            i <= entries@.len(),
            entries@ == old(entries)@,
            forall|j: int| 0 <= j < i ==> (#[trigger] entries@[j]).id@ != entry.id@,
        decreases entries@.len() - i,
    {
        if same_id(&entries[i], &entry.id) {
            proof {
                lemma_first_id_is(entries@, entry.id@, i as int);
            }
            entries.set(i, entry);
            return true;
        }
        i = i + 1;
    }
    false
}

/// Removes the first entry with id `id` and returns it.
pub fn remove_history_entry(entries: &mut Vec<HistoryEntry>, id: &str) -> (r: Option<HistoryEntry>)
    ensures
        (final(entries)@, r) == removed(old(entries)@, id@),
{
    let owned = id.to_owned();
    let mut i: usize = 0;
    while i < entries.len()
        invariant
            i <= entries@.len(),
            owned@ == id@,
            entries@ == old(entries)@,
            forall|j: int| 0 <= j < i ==> (#[trigger] entries@[j]).id@ != id@,
        decreases entries@.len() - i,
    {
        if same_id(&entries[i], &owned) {
            proof {
                lemma_first_id_is(entries@, id@, i as int);
            }
            let e = entries.remove(i);
            return Some(e);
        }
        i = i + 1;
    }
    None
}

/// Finds the first entry whose id equals, or starts with, the trimmed query.
pub fn find_history_entry(entries: Vec<HistoryEntry>, query: &str) -> (r: Option<HistoryEntry>)
    ensures
        r == found(entries@, query@),
{
    let t = trim(&chars_of(query));
    let mut es = entries;
    let mut i: usize = 0;
    while i < es.len()
        invariant
            i <= es@.len(),
            es@ == entries@,
            t@ == trim_ws(query@),
            forall|j: int| 0 <= j < i ==> !answers(#[trigger] es@[j], t@),
        decreases es@.len() - i,
    {
        let idc = chars_of(es[i].id.as_str());
        if chars_eq(&idc, &t) || starts_with(&idc, &t) {
            proof {
                lemma_first_answer_is(es@, t@, i as int);
            }
            let e = es.remove(i);
            return Some(e);
        }
        i = i + 1;
    }
    None
}

} // verus!

verus! {

/// No two entries share an id.
pub open spec fn unique_ids(es: Seq<HistoryEntry>) -> bool {
    forall|i: int, j: int| 0 <= i < j < es.len() ==> (#[trigger] es[i]).id@ != (#[trigger] es[j]).id@
}

proof fn lemma_without_id_facts(es: Seq<HistoryEntry>, id: Seq<char>)
    ensures
        forall|k: int| 0 <= k < without_id(es, id).len() ==> (#[trigger] without_id(es, id)[k]).id@ != id,
        forall|k: int| 0 <= k < without_id(es, id).len() ==> es.contains(#[trigger] without_id(es, id)[k]),
        without_id(es, id).len() <= es.len(),
        !has_id(es, id) ==> without_id(es, id) == es,
    decreases es.len(),
{
    if es.len() > 0 {
        let p = es.drop_last();
        lemma_without_id_facts(p, id);
        let w = without_id(es, id);
        let wp = without_id(p, id);
        assert forall|k: int| 0 <= k < w.len() implies es.contains(#[trigger] w[k]) by {
            if k < wp.len() {
                assert(p.contains(wp[k]));
                let j = choose|j: int| 0 <= j < p.len() && p[j] == wp[k];
                assert(es[j] == p[j]);
            } else {
                assert(w[k] == es.last());
                assert(es[es.len() - 1] == es.last());
            }
        }
        if !has_id(es, id) {
            assert(!has_id(p, id)) by {
                if has_id(p, id) {
                    let j = choose|j: int| 0 <= j < p.len() && (#[trigger] p[j]).id@ == id;
                    assert(es[j] == p[j]);
                }
            }
            assert(es[es.len() - 1] == es.last());
            assert(w =~= es);
        }
    }
}

proof fn lemma_without_id_unique(es: Seq<HistoryEntry>, id: Seq<char>)
    requires
        unique_ids(es),
    ensures
        unique_ids(without_id(es, id)),
    decreases es.len(),
{
    if es.len() > 0 {
        let p = es.drop_last();
        assert(unique_ids(p)) by {
            assert forall|i: int, j: int| 0 <= i < j < p.len() implies (#[trigger] p[i]).id@ != (#[trigger] p[j]).id@ by {
                assert(es[i] == p[i] && es[j] == p[j]);
            }
        }
        lemma_without_id_unique(p, id);
        lemma_without_id_facts(p, id);
        let wp = without_id(p, id);
        let w = without_id(es, id);
        if es.last().id@ != id {
            assert forall|i: int, j: int| 0 <= i < j < w.len() implies (#[trigger] w[i]).id@ != (#[trigger] w[j]).id@ by {
                if j == w.len() - 1 {
                    assert(w[j] == es.last());
                    assert(p.contains(wp[i]));
                    let m = choose|m: int| 0 <= m < p.len() && p[m] == wp[i];
                    assert(es[m] == p[m]);
                    assert(es[es.len() - 1] == es.last());
                } else {
                    assert(w[i] == wp[i] && w[j] == wp[j]);
                }
            }
        }
    }
}

proof fn lemma_without_id_concat(a: Seq<HistoryEntry>, b: Seq<HistoryEntry>, id: Seq<char>)
    ensures
        without_id(a + b, id) == without_id(a, id) + without_id(b, id),
    decreases b.len(),
{
    if b.len() == 0 {
        assert(a + b =~= a);
        assert(without_id(a, id) + without_id(b, id) =~= without_id(a, id));
    } else {
        assert((a + b).drop_last() =~= a + b.drop_last());
        assert((a + b).last() == b.last());
        lemma_without_id_concat(a, b.drop_last(), id);
        if b.last().id@ != id {
            assert(without_id(a, id) + without_id(b, id) =~= (without_id(a, id) + without_id(b.drop_last(), id)).push(b.last()));
        }
    }
}

proof fn lemma_first_of_added(es: Seq<HistoryEntry>, e: HistoryEntry)
    ensures
        is_first_id(added(es, e), e.id@, 0),
        has_id(added(es, e), e.id@),
        first_id(added(es, e), e.id@) == 0,
{
    let a = added(es, e);
    assert(a[0] == e);
    lemma_first_id_is(a, e.id@, 0);
}

/// Finding by the id of an entry just recorded, or by any prefix of that id, gives that entry.
pub proof fn law_find_after_add(es: Seq<HistoryEntry>, e: HistoryEntry, query: Seq<char>)
    requires
        has_prefix(e.id@, trim_ws(query)),
    ensures
        found(added(es, e), query) == Some(e),
{
    let a = added(es, e);
    let t = trim_ws(query);
    assert(a[0] == e);
    assert(answers(a[0], t));
    assert(is_first_answer(a, t, 0));
    lemma_first_answer_is(a, t, 0);
}

/// Removing the id of an entry just recorded gives that entry back and leaves the earlier
/// history without that id.
pub proof fn law_remove_after_add(es: Seq<HistoryEntry>, e: HistoryEntry)
    ensures
        removed(added(es, e), e.id@) == (without_id(es, e.id@), Some(e)),
{
    let a = added(es, e);
    lemma_first_of_added(es, e);
    assert(a.remove(0) =~= without_id(es, e.id@));
}

/// Updating an entry just recorded is the same as recording the update.
pub proof fn law_update_after_add(es: Seq<HistoryEntry>, e: HistoryEntry, e2: HistoryEntry)
    requires
        e2.id@ == e.id@,
    ensures
        updated(added(es, e), e2) == added(es, e2),
{
    lemma_first_of_added(es, e);
    assert(added(es, e).update(0, e2) =~= added(es, e2));
}

/// Updating with an id that no entry has leaves the history as it is.
pub proof fn law_update_unknown_id(es: Seq<HistoryEntry>, e: HistoryEntry)
    requires
        !has_id(es, e.id@),
    ensures
        updated(es, e) == es,
{
}

/// Recording keeps ids unique, with the recorded entry first.
pub proof fn law_add_keeps_ids_unique(es: Seq<HistoryEntry>, e: HistoryEntry)
    requires
        unique_ids(es),
    ensures
        unique_ids(added(es, e)),
        added(es, e)[0] == e,
{
    lemma_without_id_unique(es, e.id@);
    lemma_without_id_facts(es, e.id@);
    let w = without_id(es, e.id@);
    let a = added(es, e);
    assert forall|i: int, j: int| 0 <= i < j < a.len() implies (#[trigger] a[i]).id@ != (#[trigger] a[j]).id@ by {
        if i == 0 {
            assert(a[j] == w[j - 1]);
        } else {
            assert(a[i] == w[i - 1] && a[j] == w[j - 1]);
        }
    }
}

/// Recording the same entry twice leaves the history as recording it once.
pub proof fn law_add_twice(es: Seq<HistoryEntry>, e: HistoryEntry)
    ensures
        added(added(es, e), e) == added(es, e),
{
    let w = without_id(es, e.id@);
    lemma_without_id_concat(seq![e], w, e.id@);
    assert(seq![e].drop_last() =~= Seq::<HistoryEntry>::empty());
    assert(without_id(seq![e].drop_last(), e.id@) =~= Seq::<HistoryEntry>::empty());
    assert(seq![e].last() == e);
    assert(without_id(seq![e], e.id@) =~= Seq::<HistoryEntry>::empty());
    lemma_without_id_facts(es, e.id@);
    lemma_without_id_facts(w, e.id@);
    assert(!has_id(w, e.id@));
    assert(without_id(seq![e] + w, e.id@) =~= w);
}

/// In a history with unique ids, removing an id leaves no entry with it.
pub proof fn law_remove_clears_id(es: Seq<HistoryEntry>, id: Seq<char>)
    requires
        unique_ids(es),
    ensures
        !has_id(removed(es, id).0, id),
{
    if has_id(es, id) {
        let i0 = choose|i: int| 0 <= i < es.len() && (#[trigger] es[i]).id@ == id;
        lemma_first_exists(es, id, i0);
        let k = first_id(es, id);
        let r = es.remove(k);
        if has_id(r, id) {
            let j = choose|j: int| 0 <= j < r.len() && (#[trigger] r[j]).id@ == id;
            if j < k {
                assert(r[j] == es[j]);
            } else {
                assert(r[j] == es[j + 1]);
            }
        }
    }
}

proof fn lemma_first_exists(es: Seq<HistoryEntry>, id: Seq<char>, i: int)
    requires
        0 <= i < es.len(),
        es[i].id@ == id,
    ensures
        exists|k: int| is_first_id(es, id, k),
    decreases i,
{
    if forall|j: int| 0 <= j < i ==> (#[trigger] es[j]).id@ != id {
        assert(is_first_id(es, id, i));
    } else {
        let j = choose|j: int| 0 <= j < i && (#[trigger] es[j]).id@ != id == false;
        lemma_first_exists(es, id, j);
    }
}

} // verus!
