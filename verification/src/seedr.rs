//! The Seedr.cc API as the library sees it: request addresses and payloads, and how replies
//! are read. The HTTP exchange itself is made by the application.

use vstd::prelude::*;
use crate::config::Auth;
use crate::text::{chars_of, contains, decimal, has_infix, push_decimal, push_str, string_of};

verus! {

/// Seedr OAuth token endpoint.
pub const SEEDR_TOKEN_URL: &'static str = "https://www.seedr.cc/oauth_test/token.php";

/// Seedr resource endpoint.
pub const SEEDR_RESOURCE_URL: &'static str = "https://www.seedr.cc/oauth_test/resource.php";

/// A finished folder in the Seedr cloud.
#[derive(Debug, Clone)]
pub struct SeedrFolder {
    pub id: u64,
    pub name: String,
    pub size: Option<u64>,
}

/// A file inside a Seedr folder.
#[derive(Debug, Clone)]
pub struct SeedrFile {
    pub id: Option<u64>,
    pub folder_file_id: Option<u64>,
    pub name: String,
    pub size: u64,
}

impl SeedrFile {
    /// The id to fetch the file by: its folder-file id, else its plain id.
    pub fn file_id(&self) -> (r: Option<u64>)
        ensures
            r == (if self.folder_file_id is Some { self.folder_file_id } else { self.id }),
    {
        match self.folder_file_id {
            Some(v) => Some(v),
            None => self.id,
        }
    }
}

/// Address listing the cloud root.
pub fn list_root_url(token: &str) -> (r: String)
    ensures
        r@ == SEEDR_RESOURCE_URL@ + "?func=list_contents&access_token="@ + token@,
{
    let mut v: Vec<char> = Vec::new();
    push_str(&mut v, SEEDR_RESOURCE_URL);
    push_str(&mut v, "?func=list_contents&access_token=");
    push_str(&mut v, token);
    string_of(&v)
}

/// Address listing one folder.
pub fn list_folder_url(folder_id: u64, token: &str) -> (r: String)
    ensures
        r@ == SEEDR_RESOURCE_URL@ + "?func=list_contents&folder_id="@ + decimal(folder_id as nat)
            + "&access_token="@ + token@,
{
    let mut v: Vec<char> = Vec::new();
    push_str(&mut v, SEEDR_RESOURCE_URL);
    push_str(&mut v, "?func=list_contents&folder_id=");
    push_decimal(&mut v, folder_id as u128);
    push_str(&mut v, "&access_token=");
    push_str(&mut v, token);
    string_of(&v)
}

/// Address asking for the download URL of a file.
pub fn fetch_file_url(file_id: u64, token: &str) -> (r: String)
    ensures
        r@ == SEEDR_RESOURCE_URL@ + "?func=fetch_file&folder_file_id="@ + decimal(file_id as nat)
            + "&access_token="@ + token@,
{
    let mut v: Vec<char> = Vec::new();
    push_str(&mut v, SEEDR_RESOURCE_URL);
    push_str(&mut v, "?func=fetch_file&folder_file_id=");
    push_decimal(&mut v, file_id as u128);
    push_str(&mut v, "&access_token=");
    push_str(&mut v, token);
    string_of(&v)
}

/// The `delete_arr` form value that deletes one folder: `[{"type":"folder","id":N}]`.
pub fn delete_folder_payload(folder_id: u64) -> (r: String)
    ensures
        r@ == "[{\"type\":\"folder\",\"id\":"@ + decimal(folder_id as nat) + "}]"@,
{
    let mut v: Vec<char> = Vec::new();
    push_str(&mut v, "[{\"type\":\"folder\",\"id\":");
    push_decimal(&mut v, folder_id as u128);
    push_str(&mut v, "}]");
    string_of(&v)
}

/// Why Seedr did not accept a magnet link.
#[derive(Debug, Clone)]
pub enum AddMagnetError {
    /// The cloud account is full.
    NotEnoughSpace,
    /// Seedr gave this reason.
    Rejected(String),
    /// Seedr reported this error.
    Api(String),
    /// The reply named no torrent.
    NoTorrentId,
}

/// Reads the reply to an `add_torrent` request: a reason phrase means rejection (a full account
/// when it mentions `not_enough_space`), then an error field, then the torrent id.
pub fn interpret_add_magnet(
    reason_phrase: Option<String>,
    error: Option<String>,
    user_torrent_id: Option<u64>,
) -> (r: Result<u64, AddMagnetError>)
    ensures
        match reason_phrase {
            Some(reason) => if has_infix(reason@, "not_enough_space"@) {
                r matches Err(AddMagnetError::NotEnoughSpace)
            } else {
                r matches Err(AddMagnetError::Rejected(s)) && s == reason
            },
            None => match error {
                Some(e) => r matches Err(AddMagnetError::Api(s)) && s == e,
                None => match user_torrent_id {
                    Some(id) => r == Ok::<u64, AddMagnetError>(id),
                    None => r matches Err(AddMagnetError::NoTorrentId),
                },
            },
        },
{
    match reason_phrase {
        Some(reason) => {
            let text = chars_of(reason.as_str());
            let marker = chars_of("not_enough_space");
            if contains(&text, &marker) {
                Err(AddMagnetError::NotEnoughSpace)
            } else {
                Err(AddMagnetError::Rejected(reason))
            }
        },
        None => match error {
            Some(e) => Err(AddMagnetError::Api(e)),
            None => match user_torrent_id {
                Some(id) => Ok(id),
                None => Err(AddMagnetError::NoTorrentId),
            },
        },
    }
}

/// Why a login failed.
#[derive(Debug, Clone)]
pub enum LoginError {
    /// Seedr refused, with its error and description (empty when absent).
    Rejected(String, String),
    /// The reply held no access token.
    NoAccessToken,
}

/// Reads the reply of the token endpoint.
pub fn interpret_login(
    access_token: Option<String>,
    refresh_token: Option<String>,
    error: Option<String>,
    error_description: Option<String>,
) -> (r: Result<Auth, LoginError>)
    ensures
        match error {
            Some(e) => r matches Err(LoginError::Rejected(a, b)) && a == e && (match error_description {
                Some(d) => b == d,
                None => b@ == Seq::<char>::empty(),
            }),
            None => match access_token {
                Some(t) => r matches Ok(auth) && auth.access_token == t && auth.refresh_token
                    == refresh_token,
                None => r matches Err(LoginError::NoAccessToken),
            },
        },
{
    match error {
        Some(e) => {
            let desc = match error_description {
                Some(d) => d,
                None => String::new(),
            };
            Err(LoginError::Rejected(e, desc))
        },
        None => match access_token {
            Some(t) => Ok(Auth { access_token: t, refresh_token }),
            None => Err(LoginError::NoAccessToken),
        },
    }
}

/// What one poll of the cloud listing says about a torrent being cached.
#[derive(Debug, Clone, Copy, PartialEq, Eq, Structural)]
pub enum CachingStep {
    /// The folder at this position of the listing holds the result.
    Ready(usize),
    /// The torrent is still downloading in the cloud.
    Waiting,
    /// The torrent left the list and no folder matches it.
    Vanished,
}

/// `i` is the first folder named exactly `name`.
pub open spec fn first_named(folders: Seq<SeedrFolder>, name: Seq<char>, i: int) -> bool {
    &&& 0 <= i < folders.len()
    &&& folders[i].name@ == name
    &&& forall|j: int| 0 <= j < i ==> (#[trigger] folders[j]).name@ != name
}

/// A folder name and a torrent name contain one another.
pub open spec fn names_overlap(folder: Seq<char>, name: Seq<char>) -> bool {
    has_infix(folder, name) || has_infix(name, folder)
}

/// `i` is the first folder whose name and the torrent name contain one another.
pub open spec fn first_overlapping(folders: Seq<SeedrFolder>, name: Seq<char>, i: int) -> bool {
    &&& 0 <= i < folders.len()
    &&& names_overlap(folders[i].name@, name)
    &&& forall|j: int| 0 <= j < i ==> !names_overlap((#[trigger] folders[j]).name@, name)
}

/// Reads one poll of the cloud listing while waiting for a torrent: a folder with the torrent's
/// name means it is ready; otherwise, while the torrent is listed, keep waiting; once it is gone,
/// a folder whose name contains, or is contained in, the torrent's name is taken as the result.
pub fn caching_step(
    folders: &Vec<SeedrFolder>,
    torrent_ids: &Vec<u64>,
    torrent_id: u64,
    name: &str,
) -> (r: CachingStep)
    ensures
        match r {
            CachingStep::Ready(i) => first_named(folders@, name@, i as int) || (
                !(exists|j: int| 0 <= j < folders@.len() && (#[trigger] folders@[j]).name@ == name@)
                && !torrent_ids@.contains(torrent_id)
                && first_overlapping(folders@, name@, i as int)),
            CachingStep::Waiting => torrent_ids@.contains(torrent_id) && !(exists|j: int|
                0 <= j < folders@.len() && (#[trigger] folders@[j]).name@ == name@),
            CachingStep::Vanished => !torrent_ids@.contains(torrent_id) && (forall|j: int|
                0 <= j < folders@.len() ==> !names_overlap((#[trigger] folders@[j]).name@, name@)),
        },
{
    let target = chars_of(name);
    let mut i: usize = 0;
    while i < folders.len()
        invariant
            i <= folders@.len(),
            target@ == name@,
            forall|j: int| 0 <= j < i ==> (#[trigger] folders@[j]).name@ != name@,
        decreases folders@.len() - i,
    {
        let fname = chars_of(folders[i].name.as_str());
        if crate::text::chars_eq(&fname, &target) {
            return CachingStep::Ready(i);
        }
        i = i + 1;
    }
    let mut k: usize = 0;
    while k < torrent_ids.len()
        invariant
            k <= torrent_ids@.len(),
            forall|j: int| 0 <= j < k ==> torrent_ids@[j] != torrent_id,
            forall|j: int| 0 <= j < folders@.len() ==> (#[trigger] folders@[j]).name@ != name@,
        decreases torrent_ids@.len() - k,
    {
        if torrent_ids[k] == torrent_id {
            assert(torrent_ids@[k as int] == torrent_id);
            return CachingStep::Waiting;
        }
        k = k + 1;
    }
    assert(!torrent_ids@.contains(torrent_id));
    let mut m: usize = 0;
    while m < folders.len()
        invariant
            m <= folders@.len(),
            !torrent_ids@.contains(torrent_id),
            forall|j: int| 0 <= j < folders@.len() ==> (#[trigger] folders@[j]).name@ != name@,
            target@ == name@,
            forall|j: int| 0 <= j < m ==> !names_overlap((#[trigger] folders@[j]).name@, name@),
        decreases folders@.len() - m,
    {
        let fname = chars_of(folders[m].name.as_str());
        if contains(&fname, &target) || contains(&target, &fname) {
            return CachingStep::Ready(m);
        }
        m = m + 1;
    }
    CachingStep::Vanished
}

/// A form as text pairs.
pub open spec fn form_view(f: Seq<(String, String)>) -> Seq<(Seq<char>, Seq<char>)> {
    f.map_values(|p: (String, String)| (p.0@, p.1@))
}

fn pair(k: &str, v: &str) -> (r: (String, String))
    ensures
        r.0@ == k@,
        r.1@ == v@,
{
    (k.to_owned(), v.to_owned())
}

/// The form that logs in with an e-mail and password.
pub fn login_form(email: &str, pass: &str) -> (r: Vec<(String, String)>)
    ensures
        form_view(r@) == seq![
            ("grant_type"@, "password"@),
            ("client_id"@, "seedr_chrome"@),
            ("type"@, "login"@),
            ("username"@, email@),
            ("password"@, pass@),
        ],
{
    let mut r: Vec<(String, String)> = Vec::new();
    r.push(pair("grant_type", "password"));
    r.push(pair("client_id", "seedr_chrome"));
    r.push(pair("type", "login"));
    r.push(pair("username", email));
    r.push(pair("password", pass));
    assert(form_view(r@) =~= seq![
        ("grant_type"@, "password"@),
        ("client_id"@, "seedr_chrome"@),
        ("type"@, "login"@),
        ("username"@, email@),
        ("password"@, pass@),
    ]);
    r
}

/// The form that adds a magnet link or torrent URL.
pub fn add_torrent_form(magnet: &str, token: &str) -> (r: Vec<(String, String)>)
    ensures
        form_view(r@) == seq![("func"@, "add_torrent"@), ("torrent_magnet"@, magnet@), ("access_token"@, token@)],
{
    let mut r: Vec<(String, String)> = Vec::new();
    r.push(pair("func", "add_torrent"));
    r.push(pair("torrent_magnet", magnet));
    r.push(pair("access_token", token));
    assert(form_view(r@) =~= seq![("func"@, "add_torrent"@), ("torrent_magnet"@, magnet@), ("access_token"@, token@)]);
    r
}

/// The form that deletes one folder.
pub fn delete_folder_form(folder_id: u64, token: &str) -> (r: Vec<(String, String)>)
    ensures
        form_view(r@) == seq![
            ("func"@, "delete"@),
            ("delete_arr"@, "[{\"type\":\"folder\",\"id\":"@ + decimal(folder_id as nat) + "}]"@),
            ("access_token"@, token@),
        ],
{
    let mut r: Vec<(String, String)> = Vec::new();
    r.push(pair("func", "delete"));
    r.push(("delete_arr".to_owned(), delete_folder_payload(folder_id)));
    r.push(pair("access_token", token));
    assert(form_view(r@) =~= seq![
        ("func"@, "delete"@),
        ("delete_arr"@, "[{\"type\":\"folder\",\"id\":"@ + decimal(folder_id as nat) + "}]"@),
        ("access_token"@, token@),
    ]);
    r
}

} // verus!
