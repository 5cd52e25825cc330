//! Decisions of the command line: which download to attach to, the login answers, and how the
//! configuration command changes the settings.

use vstd::prelude::*;
use crate::config::Config;
use crate::task::TaskState;
use crate::text::{chars_of, string_of, trim, trim_ws};

verus! {

/// The download to attach to: the one asked for, else the first active one.
pub fn attach_target(requested: Option<u64>, tasks: &Vec<TaskState>) -> (r: Option<u64>)
    ensures
        r == (match requested {
            Some(id) => Some(id),
            None => if tasks@.len() > 0 { Some(tasks@[0].folder_id) } else { None },
        }),
{
    match requested {
        Some(id) => Some(id),
        None => if tasks.len() > 0 { Some(tasks[0].folder_id) } else { None },
    }
}

/// The e-mail and password typed at the login prompt, trimmed; `None` when either is blank.
pub fn login_credentials(email: &str, pass: &str) -> (r: Option<(String, String)>)
    ensures
        match r {
            Some((e, p)) => e@ == trim_ws(email@) && p@ == trim_ws(pass@) && e@.len() > 0 && p@.len() > 0,
            None => trim_ws(email@).len() == 0 || trim_ws(pass@).len() == 0,
        },
{
    let e = trim(&chars_of(email));
    let p = trim(&chars_of(pass));
    if e.len() == 0 || p.len() == 0 {
        None
    } else {
        Some((string_of(&e), string_of(&p)))
    }
}

/// The configuration command only shows the settings when asked to, or when it sets nothing.
pub open spec fn config_shows(gemini_key: Option<String>, media_dir: Option<String>, show: bool) -> bool {
    show || (gemini_key is None && media_dir is None)
}

/// Applies the configuration command: when it only shows, nothing changes and `true` comes
/// back; otherwise the given key and media directory replace the configured ones, and `false`
/// comes back (the settings are then saved).
pub fn apply_config_args(cfg: &mut Config, gemini_key: Option<String>, media_dir: Option<String>, show: bool) -> (r: bool)
    ensures
        r == config_shows(gemini_key, media_dir, show),
        r ==> *final(cfg) == *old(cfg),
        !r ==> final(cfg).gemini_api_key == (if gemini_key is Some { gemini_key } else { old(cfg).gemini_api_key }),
        !r ==> final(cfg).jellyfin_media_dir == (match media_dir { Some(d) => d, None => old(cfg).jellyfin_media_dir }),
        final(cfg).delete_after_download == old(cfg).delete_after_download,
        final(cfg).download_threads == old(cfg).download_threads,
{
    if show || (gemini_key.is_none() && media_dir.is_none()) {
        return true;
    }
    if gemini_key.is_some() {
        cfg.gemini_api_key = gemini_key;
    }
    match media_dir {
        Some(d) => {
            cfg.jellyfin_media_dir = d;
        },
        None => {},
    }
    false
}

} // verus!
