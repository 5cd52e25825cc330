//! The background worker that downloads one cloud folder and files it into the library.

use vstd::prelude::*;
use crate::config::{cache_dir, cache_dir_spec};
use crate::paths::{join_path, joined};
use crate::seedr::SeedrFile;
use crate::text::{decimal, push_decimal, push_str, string_of};

verus! {

/// Why a worker cannot start downloading its folder.
#[derive(Debug, Clone, Copy, PartialEq, Eq, Structural)]
pub enum WorkerError {
    /// The folder holds no file.
    NoFiles,
    /// The first file carries no id to fetch it by.
    MissingFileId,
}

/// The id of the file a worker downloads: that of the folder's first file.
pub fn worker_file_id(files: &Vec<SeedrFile>) -> (r: Result<u64, WorkerError>)
    ensures
        files@.len() == 0 ==> r == Err::<u64, WorkerError>(WorkerError::NoFiles),
        files@.len() > 0 ==> r == (match (if files@[0].folder_file_id is Some {
            files@[0].folder_file_id
        } else {
            files@[0].id
        }) {
            Some(id) => Ok::<u64, WorkerError>(id),
            None => Err(WorkerError::MissingFileId),
        }),
{
    if files.len() == 0 {
        return Err(WorkerError::NoFiles);
    }
    match files[0].file_id() {
        Some(id) => Ok(id),
        None => Err(WorkerError::MissingFileId),
    }
}

/// The log file of the worker for a folder: `logs/<folder_id>.log` in the cache directory.
pub fn worker_log_path(home: &str, folder_id: u64) -> (r: String)
    ensures
        r@ == joined(joined(cache_dir_spec(home@), "logs"@), decimal(folder_id as nat) + ".log"@),
{
    let logs = join_path(cache_dir(home).as_str(), "logs");
    let mut name: Vec<char> = Vec::new();
    push_decimal(&mut name, folder_id as u128);
    push_str(&mut name, ".log");
    let name = string_of(&name);
    join_path(logs.as_str(), name.as_str())
}

/// The arguments that start the worker for a folder: `worker <folder_id>`.
pub fn worker_args(folder_id: u64) -> (r: Vec<String>)
    ensures
        r@.len() == 2,
        r@[0]@ == "worker"@,
        r@[1]@ == decimal(folder_id as nat),
{
    let mut id: Vec<char> = Vec::new();
    push_decimal(&mut id, folder_id as u128);
    let mut r: Vec<String> = Vec::new();
    r.push("worker".to_owned());
    r.push(string_of(&id));
    r
}

} // verus!
