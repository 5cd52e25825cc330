//! Background download tasks: their records, where they are kept, and the listing order.

use vstd::prelude::*;
use crate::config::{cache_dir, cache_dir_spec};
use crate::paths::{join_path, joined};
use crate::text::{decimal, push_decimal, push_str, string_of};

verus! {

/// Stage of a background download.
#[derive(Clone, Copy, PartialEq, Eq, Debug, Structural)]
pub enum TaskStatus {
    Downloading,
    Organizing,
    Completed,
    Failed,
}

/// Progress record of one background download, kept in `tasks/<folder_id>.json`.
#[derive(Clone, Debug)]
pub struct TaskState {
    pub folder_id: u64,
    pub pid: u32,
    pub folder_name: String,
    pub file_name: String,
    pub downloaded_bytes: u64,
    pub total_bytes: u64,
    pub speed_bps: u64,
    pub eta_seconds: u64,
    pub status: TaskStatus,
    pub error: Option<String>,
}

/// Directory of task records (`~/.cache/seedr-dl/tasks`).
pub open spec fn tasks_dir_spec(home: Seq<char>) -> Seq<char> {
    joined(cache_dir_spec(home), "tasks"@)
}

/// Returns the directory of task records.
pub fn tasks_dir(home: &str) -> (r: String)
    ensures
        r@ == tasks_dir_spec(home@),
{
    let c = cache_dir(home);
    join_path(c.as_str(), "tasks")
}

/// Returns the record file of the task for a cloud folder: `<folder_id>.json` in the tasks
/// directory.
pub fn task_file_path(home: &str, folder_id: u64) -> (r: String)
    ensures
        r@ == joined(tasks_dir_spec(home@), decimal(folder_id as nat) + ".json"@),
{
    let dir = tasks_dir(home);
    let mut name: Vec<char> = Vec::new();
    push_decimal(&mut name, folder_id as u128);
    push_str(&mut name, ".json");
    let name = string_of(&name);
    join_path(dir.as_str(), name.as_str())
}

/// The `/proc` entry whose presence tells that process `pid` is alive.
pub fn proc_path(pid: u32) -> (r: String)
    ensures
        r@ == "/proc/"@ + decimal(pid as nat),
{
    let mut v: Vec<char> = Vec::new();
    push_str(&mut v, "/proc/");
    push_decimal(&mut v, pid as u128);
    string_of(&v)
}

impl TaskState {
    /// A task that starts downloading: no speed or estimate yet, no error.
    pub fn new_downloading(
        folder_id: u64,
        pid: u32,
        folder_name: String,
        file_name: String,
        downloaded_bytes: u64,
        total_bytes: u64,
    ) -> (r: TaskState)
        ensures
            r.folder_id == folder_id,
            r.pid == pid,
            r.folder_name == folder_name,
            r.file_name == file_name,
            r.downloaded_bytes == downloaded_bytes,
            r.total_bytes == total_bytes,
            r.speed_bps == 0,
            r.eta_seconds == 0,
            r.status == TaskStatus::Downloading,
            r.error is None,
    {
        TaskState {
            folder_id,
            pid,
            folder_name,
            file_name,
            downloaded_bytes,
            total_bytes,
            speed_bps: 0,
            eta_seconds: 0,
            status: TaskStatus::Downloading,
            error: None,
        }
    }

    /// Records a progress report; nothing else changes.
    pub fn record_progress(&mut self, downloaded: u64, total: u64, speed: u64, eta: u64)
        ensures
            *final(self) == (TaskState {
                downloaded_bytes: downloaded,
                total_bytes: total,
                speed_bps: speed,
                eta_seconds: eta,
                ..*old(self)
            }),
    {
        self.downloaded_bytes = downloaded;
        self.total_bytes = total;
        self.speed_bps = speed;
        self.eta_seconds = eta;
    }

    /// Moves the task to another stage; nothing else changes.
    pub fn set_status(&mut self, status: TaskStatus)
        ensures
            *final(self) == (TaskState { status, ..*old(self) }),
    {
        self.status = status;
    }

    /// Marks the task failed with a message; nothing else changes.
    pub fn mark_failed(&mut self, message: String)
        ensures
            *final(self) == (TaskState { status: TaskStatus::Failed, error: Some(message), ..*old(self) }),
    {
        self.status = TaskStatus::Failed;
        self.error = Some(message);
    }
}

/// A stage after which a monitor stops following the task.
pub open spec fn is_finished(status: TaskStatus) -> bool {
    status == TaskStatus::Completed || status == TaskStatus::Failed
}

/// Whether the task has completed or failed.
pub fn task_finished(status: TaskStatus) -> (r: bool)
    ensures
        r == is_finished(status),
{
    match status {
        TaskStatus::Completed | TaskStatus::Failed => true,
        _ => false,
    }
}

// ---------------------------------------------------------------------------------------------
// Listing order
// ---------------------------------------------------------------------------------------------

/// Position at which a task with key `k` goes into a list: before the first with a larger key.
pub open spec fn insert_pos(s: Seq<TaskState>, k: u64) -> int
    decreases s.len(),
{
    if s.len() == 0 {
        0
    } else if s[0].folder_id > k {
        0
    } else {
        1 + insert_pos(s.drop_first(), k)
    }
}

/// The tasks ordered by folder id, tasks with equal ids keeping their order (a stable sort, as
/// `sort_by_key` does).
pub open spec fn sorted_by_folder(s: Seq<TaskState>) -> Seq<TaskState>
    decreases s.len(),
{
    if s.len() == 0 {
        seq![]
    } else {
        let r = sorted_by_folder(s.drop_last());
        r.insert(insert_pos(r, s.last().folder_id), s.last())
    }
}

/// Tasks are in non-decreasing folder-id order.
pub open spec fn ordered(s: Seq<TaskState>) -> bool {
    forall|i: int, j: int| 0 <= i < j < s.len() ==> (#[trigger] s[i]).folder_id <= (#[trigger] s[j]).folder_id
}

proof fn lemma_insert_pos(s: Seq<TaskState>, k: u64)
    requires
        ordered(s),
    ensures
        0 <= insert_pos(s, k) <= s.len(),
        forall|j: int| 0 <= j < insert_pos(s, k) ==> (#[trigger] s[j]).folder_id <= k,
        forall|j: int| insert_pos(s, k) <= j < s.len() ==> (#[trigger] s[j]).folder_id > k,
    decreases s.len(),
{
    if s.len() > 0 && s[0].folder_id <= k {
        let t = s.drop_first();
        assert(ordered(t)) by {
            assert forall|i: int, j: int| 0 <= i < j < t.len() implies (#[trigger] t[i]).folder_id <= (#[trigger] t[j]).folder_id by {
                assert(t[i] == s[i + 1] && t[j] == s[j + 1]);
            }
        }
        lemma_insert_pos(t, k);
        assert forall|j: int| 0 <= j < insert_pos(s, k) implies (#[trigger] s[j]).folder_id <= k by {
            if j > 0 {
                assert(s[j] == t[j - 1]);
            }
        }
        assert forall|j: int| insert_pos(s, k) <= j < s.len() implies (#[trigger] s[j]).folder_id > k by {
            assert(s[j] == t[j - 1]);
        }
    } else if s.len() > 0 {
        assert forall|j: int| 0 <= j < s.len() implies (#[trigger] s[j]).folder_id > k by {
            if j > 0 {
                assert(s[0].folder_id <= s[j].folder_id);
            }
        }
    }
}

/// Sorting by folder id orders the tasks and keeps every task, as often as it occurs.
pub proof fn law_sorted_by_folder(s: Seq<TaskState>)
    ensures
        ordered(sorted_by_folder(s)),
        sorted_by_folder(s).to_multiset() == s.to_multiset(),
    decreases s.len(),
{
    broadcast use vstd::seq_lib::group_to_multiset_ensures;

    if s.len() > 0 {
        let p = s.drop_last();
        let x = s.last();
        law_sorted_by_folder(p);
        let r = sorted_by_folder(p);
        lemma_insert_pos(r, x.folder_id);
        let pos = insert_pos(r, x.folder_id);
        let q = r.insert(pos, x);
        assert forall|i: int, j: int| 0 <= i < j < q.len() implies (#[trigger] q[i]).folder_id <= (#[trigger] q[j]).folder_id by {
            if j < pos {
                assert(q[i] == r[i] && q[j] == r[j]);
            } else if j == pos {
                assert(q[i] == r[i]);
            } else if i == pos {
                assert(q[j] == r[j - 1]);
            } else if i < pos {
                assert(q[i] == r[i] && q[j] == r[j - 1]);
            } else {
                assert(q[i] == r[i - 1] && q[j] == r[j - 1]);
            }
        }
        assert(q.remove(pos) =~= r);
        assert(q[pos] == x);
        assert(s =~= p.push(x));
        assert(q.to_multiset().remove(x) =~= r.to_multiset());
        assert(q.to_multiset() =~= p.to_multiset().insert(x));
    }
}

fn find_insert_pos(s: &Vec<TaskState>, k: u64) -> (r: usize)
    ensures
        r == insert_pos(s@, k),
        r <= s@.len(),
{
    let mut i: usize = 0;
    assert(s@.skip(0) =~= s@);
    while i < s.len() && s[i].folder_id <= k
        invariant
            i <= s@.len(),
            insert_pos(s@, k) == i + insert_pos(s@.skip(i as int), k),
        decreases s@.len() - i,
    {
        assert(s@.skip(i as int).drop_first() =~= s@.skip(i + 1));
        assert(s@.skip(i as int)[0] == s@[i as int]);
        i = i + 1;
    }
    proof {
        if i < s@.len() {
            assert(s@.skip(i as int)[0] == s@[i as int]);
        }
    }
    i
}

/// Keeps the tasks whose process is alive (`alive[i]` for `found[i]`; a missing flag counts as
/// alive) and lists them by folder id, as `sort_by_key` does.
pub fn collect_active_tasks(found: Vec<TaskState>, alive: &Vec<bool>) -> (r: Vec<TaskState>)
    ensures
        r@ == sorted_by_folder(live_tasks(found@, alive@)),
{
    let mut src = found;
    let ghost orig = src@;
    assert(orig.len() == src.len());
    let mut i: usize = 0;
    let mut out: Vec<TaskState> = Vec::new();
    while src.len() > 0
        invariant
            i <= orig.len(),
            orig.len() <= usize::MAX,
            src@ == orig.skip(i as int),
            out@ == sorted_by_folder(live_tasks(orig.take(i as int), alive@)),
        decreases src.len(),
    {
        let t = src.remove(0);
        proof {
            assert(t == orig[i as int]);
            assert(orig.take(i + 1).drop_last() =~= orig.take(i as int));
            assert(orig.take(i + 1).last() == orig[i as int]);
        }
        let keep = if i < alive.len() { alive[i] } else { true };
        if keep {
            let pos = find_insert_pos(&out, t.folder_id);
            out.insert(pos, t);
            proof {
                let lt = live_tasks(orig.take(i + 1), alive@);
                assert(lt.drop_last() =~= live_tasks(orig.take(i as int), alive@));
                assert(lt.last() == orig[i as int]);
            }
        }
        i = i + 1;
        assert(src@ =~= orig.skip(i as int));
    }
    assert(orig.take(i as int) =~= orig);
    out
}

/// The tasks whose flag says alive (tasks past the end of the flags count as alive).
pub open spec fn live_tasks(s: Seq<TaskState>, alive: Seq<bool>) -> Seq<TaskState>
    decreases s.len(),
{
    if s.len() == 0 {
        seq![]
    } else {
        let r = live_tasks(s.drop_last(), alive);
        let i = s.len() - 1;
        if i >= alive.len() || alive[i] { r.push(s.last()) } else { r }
    }
}

/// Whether a file of the tasks directory is a task record: its extension is `json`.
pub fn is_task_record(path: &str) -> (r: bool)
    ensures
        r == (crate::history_cli::path_extension(path@) == Some("json"@)),
{
    match crate::gemini::file_extension(path) {
        Some(e) => crate::text::chars_eq_str(&e, "json"),
        None => false,
    }
}

} // verus!
