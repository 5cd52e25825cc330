//! Where an identified release goes in the Jellyfin library.

use vstd::prelude::*;
use crate::gemini::{name_ext, parsed, MediaInfo, MediaType};
use crate::history_ui::year_suffix;
use crate::paths::{join_path, joined};
use crate::text::pad2;

verus! {

/// Destination folder and destination file of a release under the media root:
/// `<root>/<relative_folder>` and, inside it, `<clean_filename>`.
pub fn organize_target(media_root: &str, info: &MediaInfo) -> (r: (String, String))
    ensures
        r.0@ == joined(media_root@, info.relative_folder@),
        r.1@ == joined(joined(media_root@, info.relative_folder@), info.clean_filename@),
{
    let dir = join_path(media_root, info.relative_folder.as_str());
    let file = join_path(dir.as_str(), info.clean_filename.as_str());
    (dir, file)
}

/// Offline naming follows the Jellyfin layout: a movie goes to `movies/<Title> (<Year>)` as
/// `<Title> (<Year>).<ext>` (without the year part when there is no year); an episode goes to
/// `shows/<Title>/Season <ss>` as `<Title> - S<ss>E<ee>.<ext>`, with two-digit numbers.
pub proof fn law_jellyfin_layout(raw: Seq<char>)
    ensures
        ({
            let i = parsed(raw);
            let ext = name_ext(raw);
            &&& i.media_type == MediaType::Movie ==> {
                &&& i.season is None && i.episode is None
                &&& i.relative_folder == "movies/"@ + i.title + year_suffix(i.year)
                &&& i.clean_filename == i.title + year_suffix(i.year) + ext
            }
            &&& i.media_type == MediaType::Show ==> {
                &&& i.year is None
                &&& i.season matches Some(s) && i.episode matches Some(e)
                    && i.relative_folder == "shows/"@ + i.title + "/Season "@ + pad2(s as nat)
                    && i.clean_filename == i.title + " - S"@ + pad2(s as nat) + "E"@ + pad2(e as nat) + ext
            }
        }),
{
    let i = parsed(raw);
    if i.media_type == MediaType::Movie {
        match i.year {
            Some(y) => {
                assert(i.relative_folder =~= "movies/"@ + i.title + year_suffix(i.year));
                assert(i.clean_filename =~= i.title + year_suffix(i.year) + name_ext(raw));
            },
            None => {
                assert(i.relative_folder =~= "movies/"@ + i.title + year_suffix(i.year));
                assert(i.clean_filename =~= i.title + year_suffix(i.year) + name_ext(raw));
            },
        }
    }
}

} // verus!
