//! The players that `playerctl` lists, the order the media player shows
//! them in, and what it shows of the current one.

use vstd::prelude::*;
use crate::order::{rank_order, stable_by_rank};
use crate::text::{chars_of, contains, dec_int, dec_pad2, lines, lines_of, lowercase, push_char, push_dec_i64, push_dec_pad2, starts_with, str_contains, str_starts_with, string_from, strip_prefix, slice_chars, to_lowercase, trim, trimmed_is};

verus! {

/// A media player and its playback status.
#[derive(Debug, Clone)]
pub struct Player {
    pub name: String,
    pub status: String,
}

/// Where a player stands in the list: playing ones first, and among
/// those playing or not, Spotify first.
pub open spec fn player_rank(name: Seq<char>, status: Seq<char>) -> u8 {
    let playing: u8 = if status == "Playing"@ { 0 } else { 2 };
    let spotify: u8 = if contains(lowercase(name), "spotify"@) { 0 } else { 1 };
    (playing + spotify) as u8
}

/// The rank of a player.
pub fn rank_of(player: &Player) -> (r: u8)
    ensures
        r == player_rank(player.name@, player.status@),
{
    let playing: u8 = if crate::text::str_eq(player.status.as_str(), "Playing") { 0 } else { 2 };
    let lower = to_lowercase(player.name.as_str());
    let spotify: u8 = if str_contains(lower.as_str(), "spotify") { 0 } else { 1 };
    playing + spotify
}

/// The ranks of the players, in order.
pub open spec fn ranks_of(players: Seq<Player>) -> Seq<u8> {
    players.map_values(|p: Player| player_rank(p.name@, p.status@))
}

/// The players as the media player lists them: a stable sort by rank.
pub fn sort_players(players: Vec<Player>) -> (r: Vec<Player>)
    ensures
        exists|order: Seq<usize>| {
            &&& stable_by_rank(ranks_of(players@), order)
            &&& r@.len() == order.len()
            &&& forall|k: int| 0 <= k < r@.len() ==> (#[trigger] r@[k]).name@ == players@[order[k] as int].name@ && r@[k].status@ == players@[order[k] as int].status@
        },
{
    let mut ranks: Vec<u8> = Vec::new();
    let mut i: usize = 0;
    while i < players.len()
        invariant
            i <= players@.len(),
            ranks@.len() == i,
            forall|k: int| 0 <= k < i ==> ranks@[k] == player_rank((#[trigger] players@[k]).name@, players@[k].status@),
        decreases players@.len() - i,
    {
        ranks.push(rank_of(&players[i]));
        i += 1;
    }
    assert(ranks@ =~= ranks_of(players@));
    let order = rank_order(&ranks);
    let mut r: Vec<Player> = Vec::new();
    let mut k: usize = 0;
    while k < order.len()
        invariant
            k <= order@.len(),
            stable_by_rank(ranks@, order@),
            ranks@.len() == players@.len(),
            r@.len() == k,
            forall|q: int| 0 <= q < k ==> (#[trigger] r@[q]).name@ == players@[order@[q] as int].name@ && r@[q].status@ == players@[order@[q] as int].status@,
        decreases order@.len() - k,
    {
        let p = &players[order[k]];
        r.push(Player { name: p.name.clone(), status: p.status.clone() });
        k += 1;
    }
    r
}

/// The non-empty lines of `s`, in order.
pub open spec fn non_empty(ls: Seq<Seq<char>>) -> Seq<Seq<char>>
    decreases ls.len(),
{
    if ls.len() == 0 {
        seq![]
    } else if ls.last().len() == 0 {
        non_empty(ls.drop_last())
    } else {
        non_empty(ls.drop_last()).push(ls.last())
    }
}

/// The player names that `playerctl -l` printed: its non-empty lines.
pub fn player_names(output: &str) -> (r: Vec<String>)
    ensures
        r@.len() == non_empty(lines(output@)).len(),
        forall|k: int| 0 <= k < r@.len() ==> (#[trigger] r@[k])@ == non_empty(lines(output@))[k],
{
    let cs = chars_of(output);
    let ls = lines_of(cs.as_slice());
    let ghost lv = lines(output@);
    let mut r: Vec<String> = Vec::new();
    let mut i: usize = 0;
    while i < ls.len()
        invariant
            i <= ls@.len(),
            ls@.len() == lv.len(),
            lv == lines(output@),
            forall|k: int| 0 <= k < ls@.len() ==> (#[trigger] ls@[k])@ == lv[k],
            r@.len() == non_empty(lv.take(i as int)).len(),
            forall|k: int| 0 <= k < r@.len() ==> (#[trigger] r@[k])@ == non_empty(lv.take(i as int))[k],
        decreases ls@.len() - i,
    {
        assert(lv.take(i + 1).drop_last() =~= lv.take(i as int));
        if ls[i].len() > 0 {
            r.push(string_from(ls[i].as_slice()));
        }
        i += 1;
    }
    assert(lv.take(i as int) =~= lv);
    r
}

/// The player shown at first: the first in the list.
pub fn active_player(players: &Vec<Player>) -> (r: Option<String>)
    ensures
        players@.len() == 0 ==> r is None,
        players@.len() > 0 ==> (r matches Some(n) && n@ == players@[0].name@),
{
    if players.len() == 0 {
        None
    } else {
        Some(players[0].name.clone())
    }
}

/// The selected player after the list was read again: the same place if
/// it still exists, else the first.
pub fn selection_after_refresh(current: usize, count: usize) -> (r: usize)
    ensures
        r == (if current >= count { 0 } else { current }),
{
    if current >= count {
        0
    } else {
        current
    }
}

/// The player selector is shown for two players or more.
pub fn shows_selector(count: usize) -> (r: bool)
    ensures
        r == (count > 1),
{
    count > 1
}

/// The icon of a player in the selector, by its lower-cased name.
pub open spec fn player_icon_for(lower: Seq<char>) -> Seq<char> {
    if contains(lower, "spotify"@) {
        "emblem-music-symbolic"@
    } else if contains(lower, "firefox"@) {
        "firefox-symbolic"@
    } else if contains(lower, "chrom"@) {
        "web-browser-symbolic"@
    } else {
        "multimedia-player-symbolic"@
    }
}

/// The icon of a player in the selector.
pub fn player_icon(name: &str) -> (r: &'static str)
    ensures
        r@ == player_icon_for(lowercase(name@)),
{
    let lower = to_lowercase(name);
    if str_contains(lower.as_str(), "spotify") {
        "emblem-music-symbolic"
    } else if str_contains(lower.as_str(), "firefox") {
        "firefox-symbolic"
    } else if str_contains(lower.as_str(), "chrom") {
        "web-browser-symbolic"
    } else {
        "multimedia-player-symbolic"
    }
}

/// Whether `playerctl status` printed a player's state: neither nothing
/// nor `No players found`.
pub fn has_media(status_output: &str) -> (r: bool)
    ensures
        r == !(trim(status_output@).len() == 0 || trim(status_output@) == "No players found"@),
{
    let t = crate::text::trim_string(status_output);
    let empty = chars_of(t.as_str()).len() == 0;
    !(empty || crate::text::str_eq(t.as_str(), "No players found"))
}

/// The icon of the play button from the status: pause while playing.
pub fn status_icon(status: &str) -> (r: &'static str)
    ensures
        r@ == (if trim(status@) == "Playing"@ { "media-playback-pause-symbolic"@ } else { "media-playback-start-symbolic"@ }),
{
    if trimmed_is(status, "Playing") {
        "media-playback-pause-symbolic"
    } else {
        "media-playback-start-symbolic"
    }
}

/// The title shown: `Unknown` for a blank one.
pub fn shown_title(title: &str) -> (r: String)
    ensures
        r@ == (if trim(title@).len() == 0 { "Unknown"@ } else { trim(title@) }),
{
    let t = crate::text::trim_string(title);
    if chars_of(t.as_str()).len() == 0 {
        "Unknown".to_string()
    } else {
        t
    }
}

/// `a / b` as Rust computes it for integers: rounded towards zero.
pub open spec fn trunc_div(a: int, b: int) -> int {
    if a >= 0 {
        a / b
    } else {
        -((-a) / b)
    }
}

/// `a % b` as Rust computes it: the sign of `a`.
pub open spec fn trunc_rem(a: int, b: int) -> int {
    a - b * trunc_div(a, b)
}

/// `m:ss` for a time in microseconds, as `format!("{}:{:02}", s / 60, s % 60)`
/// writes it for `s` whole seconds.
pub open spec fn clock(us: int) -> Seq<char> {
    let s = trunc_div(us, 1_000_000);
    dec_int(trunc_div(s, 60)) + seq![':'] + dec_pad2(trunc_rem(s, 60))
}

fn div_trunc(a: i64, b: i64) -> (r: i64)
    requires
        b > 0,
    ensures
        r == trunc_div(a as int, b as int),
{
    if a >= 0 {
        a / b
    } else {
        let m: u64 = (0i128 - (a as i128)) as u64;
        let q: u64 = m / (b as u64);
        assert(q <= m);
        (0i128 - (q as i128)) as i64
    }
}

/// The time label of the player: `m:ss` of a time in microseconds.
pub fn clock_text(us: i64) -> (r: String)
    ensures
        r@ == clock(us as int),
{
    let s = div_trunc(us, 1_000_000);
    let m = div_trunc(s, 60);
    assert(-9_223_372_036_855 <= s <= 9_223_372_036_854);
    let rem: i64 = s - 60 * m;
    let mut r = String::new();
    push_dec_i64(&mut r, m);
    push_char(&mut r, ':');
    push_dec_pad2(&mut r, rem);
    r
}

/// Where the album art comes from.
#[derive(Debug, Clone, PartialEq, Eq)]
pub enum ArtSource {
    /// A local file, by its path.
    File(String),
    /// An address to fetch.
    Web,
    /// Nothing to show.
    Nothing,
}

/// The album art source of an `mpris:artUrl`: a `file://` URL names a
/// file, an `http://` or `https://` one is fetched, others show nothing.
pub fn art_source(url: &str) -> (r: ArtSource)
    ensures
        starts_with(url@, "file://"@) ==> (r matches ArtSource::File(p) && Some(p@) == strip_prefix(url@, "file://"@)),
        !starts_with(url@, "file://"@) && (starts_with(url@, "http://"@) || starts_with(url@, "https://"@)) ==> r is Web,
        !starts_with(url@, "file://"@) && !starts_with(url@, "http://"@) && !starts_with(url@, "https://"@) ==> r is Nothing,
{
    if str_starts_with(url, "file://") {
        let cs = chars_of(url);
        proof {
            reveal_strlit("file://");
        }
        let rest = slice_chars(cs.as_slice(), 7, cs.len());
        assert(rest@ =~= url@.skip(7));
        ArtSource::File(string_from(rest.as_slice()))
    } else if str_starts_with(url, "http://") || str_starts_with(url, "https://") {
        ArtSource::Web
    } else {
        ArtSource::Nothing
    }
}

} // verus!
