//! Application settings and credentials, and where they are kept under the home directory.

use vstd::prelude::*;
use crate::paths::{join_path, joined};
use crate::text::{chars_of, string_of, trim, trim_ws};

verus! {

/// Number of parallel download workers when the settings name none.
pub fn default_download_threads() -> (r: usize)
    ensures
        r == 8,
{
    8
}

/// Application settings stored in `~/.config/seedr-dl/config.json`.
#[derive(Clone, Debug)]
pub struct Config {
    pub jellyfin_media_dir: String,
    pub gemini_api_key: Option<String>,
    pub delete_after_download: bool,
    pub download_threads: usize,
}

/// Authentication credentials stored in `~/.config/seedr-dl/auth.json`.
#[derive(Clone, Debug)]
pub struct Auth {
    pub access_token: String,
    pub refresh_token: Option<String>,
}

impl Config {
    /// The default settings for a user whose home directory is `home`: media under
    /// `~/jellyfin/media`, no Gemini key, keep cloud items, eight download workers.
    pub fn with_home(home: &str) -> (r: Config)
        ensures
            r.jellyfin_media_dir@ == joined(home@, "jellyfin/media"@),
            r.gemini_api_key is None,
            !r.delete_after_download,
            r.download_threads == 8,
    {
        Config {
            jellyfin_media_dir: join_path(home, "jellyfin/media"),
            gemini_api_key: None,
            delete_after_download: false,
            download_threads: default_download_threads(),
        }
    }
}

/// Application config directory (`~/.config/seedr-dl`).
pub open spec fn config_dir_spec(home: Seq<char>) -> Seq<char> {
    joined(home, ".config/seedr-dl"@)
}

/// Base application cache directory (`~/.cache/seedr-dl`).
pub open spec fn cache_dir_spec(home: Seq<char>) -> Seq<char> {
    joined(home, ".cache/seedr-dl"@)
}

/// Returns application config directory (`~/.config/seedr-dl`).
pub fn config_dir(home: &str) -> (r: String)
    ensures
        r@ == config_dir_spec(home@),
{
    join_path(home, ".config/seedr-dl")
}

/// Returns base application cache directory (`~/.cache/seedr-dl`).
pub fn cache_dir(home: &str) -> (r: String)
    ensures
        r@ == cache_dir_spec(home@),
{
    join_path(home, ".cache/seedr-dl")
}

/// Returns downloads cache directory (`~/.cache/seedr-dl/downloads`).
pub fn downloads_dir(home: &str) -> (r: String)
    ensures
        r@ == joined(cache_dir_spec(home@), "downloads"@),
{
    let c = cache_dir(home);
    join_path(c.as_str(), "downloads")
}

/// The Gemini key in use: the `GEMINI_API_KEY` value, trimmed, when it is not blank; else the
/// configured key, as stored, when it is not blank.
pub open spec fn gemini_key_spec(env_key: Option<Seq<char>>, configured: Option<Seq<char>>) -> Option<Seq<char>> {
    match env_key {
        Some(k) if trim_ws(k).len() > 0 => Some(trim_ws(k)),
        _ => match configured {
            Some(k) if trim_ws(k).len() > 0 => Some(k),
            _ => None,
        },
    }
}

/// A key source that holds something other than whitespace.
pub open spec fn key_given(k: Option<Seq<char>>) -> bool {
    k matches Some(v) && trim_ws(v).len() > 0
}

/// The key in use: the `GEMINI_API_KEY` value, trimmed, whenever it is set and not blank;
/// otherwise the key saved in the settings, as saved, whenever that is not blank; otherwise none.
pub proof fn law_gemini_key_choice(env_key: Option<Seq<char>>, configured: Option<Seq<char>>)
    ensures
        key_given(env_key) ==> gemini_key_spec(env_key, configured) == Some(trim_ws(env_key->0)),
        !key_given(env_key) && key_given(configured) ==> gemini_key_spec(env_key, configured)
            == configured,
        !key_given(env_key) && !key_given(configured) ==> gemini_key_spec(env_key, configured) is None,
{
}

/// Picks the Gemini key from the environment value (`None` when unset) and the settings.
pub fn get_gemini_key(env_key: Option<String>, config: &Config) -> (r: Option<String>)
    ensures
        match r {
            Some(k) => gemini_key_spec(
                match env_key { Some(e) => Some(e@), None => None },
                match config.gemini_api_key { Some(c) => Some(c@), None => None },
            ) == Some(k@),
            None => gemini_key_spec(
                match env_key { Some(e) => Some(e@), None => None },
                match config.gemini_api_key { Some(c) => Some(c@), None => None },
            ) is None,
        },
{
    match &env_key {
        Some(k) => {
            let t = trim(&chars_of(k.as_str()));
            if t.len() > 0 {
                return Some(string_of(&t));
            }
        },
        None => {},
    }
    match &config.gemini_api_key {
        Some(k) => {
            let t = trim(&chars_of(k.as_str()));
            if t.len() > 0 {
                Some(k.clone())
            } else {
                None
            }
        },
        None => None,
    }
}

/// The home directory: `$HOME` when it is set, else `/root`.
pub fn home_or_root(env_home: Option<String>) -> (r: String)
    ensures
        r@ == (match env_home { Some(h) => h@, None => "/root"@ }),
{
    match env_home {
        Some(h) => h,
        None => "/root".to_owned(),
    }
}

/// The settings file (`~/.config/seedr-dl/config.json`).
pub fn config_file(home: &str) -> (r: String)
    ensures
        r@ == joined(config_dir_spec(home@), "config.json"@),
{
    join_path(config_dir(home).as_str(), "config.json")
}

/// The credentials file (`~/.config/seedr-dl/auth.json`).
pub fn auth_file(home: &str) -> (r: String)
    ensures
        r@ == joined(config_dir_spec(home@), "auth.json"@),
{
    join_path(config_dir(home).as_str(), "auth.json")
}

} // verus!
