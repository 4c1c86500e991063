//! The media section of the control center, from what `playerctl` prints.

use vstd::prelude::*;
use crate::text::{chars_of, trim, trim_string, trimmed_is};

verus! {

/// The track that the media section shows.
#[derive(Debug, Clone)]
pub struct MediaInfo {
    pub title: String,
    pub artist: String,
    pub playing: bool,
}

/// The media section's track, from `playerctl status` (whether it
/// succeeded, and what it printed) and `playerctl metadata` for the title
/// and the artist. There is none when the status failed or the title is
/// blank.
pub fn media_info(status_ok: bool, status: &str, title: &str, artist: &str) -> (r: Option<MediaInfo>)
    ensures
        r is None <==> (!status_ok || trim(title@).len() == 0),
        r matches Some(m) ==> m.title@ == trim(title@) && m.artist@ == trim(artist@) && m.playing == (trim(status@) == "Playing"@),
{
    if !status_ok {
        return None;
    }
    let playing = trimmed_is(status, "Playing");
    let t = trim_string(title);
    let a = trim_string(artist);
    if chars_of(t.as_str()).len() == 0 {
        return None;
    }
    Some(MediaInfo { title: t, artist: a, playing })
}

/// The icon of the play button: pause while playing, else play.
pub fn play_button_icon(playing: bool) -> (r: &'static str)
    ensures
        r@ == (if playing { "media-playback-pause-symbolic"@ } else { "media-playback-start-symbolic"@ }),
{
    if playing {
        "media-playback-pause-symbolic"
    } else {
        "media-playback-start-symbolic"
    }
}

} // verus!
