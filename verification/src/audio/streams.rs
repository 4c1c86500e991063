//! Applications playing audio, as `pactl list sink-inputs` describes them,
//! and the icon each gets.

use vstd::prelude::*;
use crate::audio::devices::{volume_of, volume_in};
use crate::text::{chars_of, contains, contains_chars, str_eq, first_word, first_word_of, lines, lines_of, lowercase, parse_u32, parse_unsigned, slice_chars, starts_with, starts_with_chars, str_contains, string_from, to_lowercase, trim, trim_char, trim_char_of, trimmed};

verus! {

/// An application's audio stream. Its volume is a percentage: 100 is full
/// volume.
#[derive(Debug, Clone)]
pub struct AudioStream {
    pub id: u32,
    pub name: String,
    pub app_name: String,
    pub icon_name: String,
    pub volume_percent: u32,
    pub muted: bool,
}

/// A stream as plain values.
pub struct StreamView {
    pub id: u32,
    pub name: Seq<char>,
    pub app_name: Seq<char>,
    pub icon_name: Seq<char>,
    pub volume_percent: u32,
    pub muted: bool,
}

impl View for AudioStream {
    type V = StreamView;

    open spec fn view(&self) -> StreamView {
        StreamView {
            id: self.id,
            name: self.name@,
            app_name: self.app_name@,
            icon_name: self.icon_name@,
            volume_percent: self.volume_percent,
            muted: self.muted,
        }
    }
}

/// A stream just begun by its `Sink Input #N` header; the id is 0 when
/// what follows the `#` is not a number.
pub open spec fn new_stream(t: Seq<char>) -> StreamView {
    StreamView {
        id: match parse_unsigned(t.skip(12), u32::MAX as nat) {
            Some(v) => v as u32,
            None => 0,
        },
        name: seq![],
        app_name: seq![],
        icon_name: "audio-x-generic-symbolic"@,
        volume_percent: 100,
        muted: false,
    }
}

/// A stream after one more trimmed line of its block; quoted values lose
/// their quotes.
pub open spec fn stream_after(d: StreamView, t: Seq<char>) -> StreamView {
    if starts_with(t, "application.name = "@) {
        StreamView { app_name: trim_char(t.skip(19), '"'), ..d }
    } else if starts_with(t, "media.name = "@) {
        StreamView { name: trim_char(t.skip(13), '"'), ..d }
    } else if starts_with(t, "application.icon_name = "@) {
        StreamView { icon_name: trim_char(t.skip(24), '"'), ..d }
    } else if starts_with(t, "Volume:"@) {
        match volume_of(t) {
            Some(v) => StreamView { volume_percent: v, ..d },
            None => d,
        }
    } else if starts_with(t, "Mute:"@) {
        StreamView { muted: contains(t, "yes"@), ..d }
    } else {
        d
    }
}

/// `done` with `cur` added when there is one with an application name.
pub open spec fn flushed_stream(done: Seq<StreamView>, cur: Option<StreamView>) -> Seq<StreamView> {
    match cur {
        Some(d) => if d.app_name.len() > 0 { done.push(d) } else { done },
        None => done,
    }
}

/// The streams finished and the one being read, after the given lines.
pub open spec fn scan_streams(ls: Seq<Seq<char>>) -> (Seq<StreamView>, Option<StreamView>)
    decreases ls.len(),
{
    if ls.len() == 0 {
        (seq![], None)
    } else {
        let st = scan_streams(ls.drop_last());
        let t = trim(ls.last());
        if starts_with(t, "Sink Input #"@) {
            (flushed_stream(st.0, st.1), Some(new_stream(t)))
        } else {
            match st.1 {
                Some(d) => (st.0, Some(stream_after(d, t))),
                None => st,
            }
        }
    }
}

/// The streams a `pactl list sink-inputs` output describes, in order.
pub open spec fn streams_in(output: Seq<char>) -> Seq<StreamView> {
    let st = scan_streams(lines(output));
    flushed_stream(st.0, st.1)
}

fn quoted_value(t: &Vec<char>, from: usize) -> (r: String)
    requires
        from <= t@.len(),
    ensures
        r@ == trim_char(t@.skip(from as int), '"'),
{
    let n = t.len();
    let rest = slice_chars(t.as_slice(), from, n);
    assert(rest@ =~= t@.skip(from as int));
    let v = trim_char_of(rest.as_slice(), '"');
    string_from(v.as_slice())
}

fn update_stream(d: &mut AudioStream, t: &Vec<char>)
    ensures
        final(d)@ == stream_after(old(d)@, t@),
{
    let app_p = chars_of("application.name = ");
    let media_p = chars_of("media.name = ");
    let icon_p = chars_of("application.icon_name = ");
    let vol_p = chars_of("Volume:");
    let mute_p = chars_of("Mute:");
    let yes = chars_of("yes");
    proof {
        reveal_strlit("application.name = ");
        reveal_strlit("media.name = ");
        reveal_strlit("application.icon_name = ");
    }
    if starts_with_chars(t.as_slice(), app_p.as_slice()) {
        d.app_name = quoted_value(t, 19);
    } else if starts_with_chars(t.as_slice(), media_p.as_slice()) {
        d.name = quoted_value(t, 13);
    } else if starts_with_chars(t.as_slice(), icon_p.as_slice()) {
        d.icon_name = quoted_value(t, 24);
    } else if starts_with_chars(t.as_slice(), vol_p.as_slice()) {
        match volume_in(t) {
            Some(v) => {
                d.volume_percent = v;
            },
            None => {},
        }
    } else if starts_with_chars(t.as_slice(), mute_p.as_slice()) {
        d.muted = contains_chars(t.as_slice(), yes.as_slice());
    }
}

fn push_named(done: &mut Vec<AudioStream>, cur: Option<AudioStream>)
    ensures
        final(done)@.map_values(|x: AudioStream| x@) == flushed_stream(old(done)@.map_values(|x: AudioStream| x@), match cur {
            Some(d) => Some(d@),
            None => None,
        }),
{
    match cur {
        Some(d) => {
            if !d.app_name.as_str().is_empty() {
                done.push(d);
                assert(final(done)@.map_values(|x: AudioStream| x@) =~= old(done)@.map_values(|x: AudioStream| x@).push(d@));
            }
        },
        None => {},
    }
}

/// The streams that a `pactl list sink-inputs` output describes; streams
/// without an application name are left out.
pub fn parse_streams(output: &str) -> (r: Vec<AudioStream>)
    ensures
        r@.map_values(|x: AudioStream| x@) == streams_in(output@),
{
    let oc = chars_of(output);
    let ls = lines_of(oc.as_slice());
    let ghost lsv = lines(output@);
    let head = chars_of("Sink Input #");
    proof {
        reveal_strlit("Sink Input #");
    }
    let mut done: Vec<AudioStream> = Vec::new();
    let mut cur: Option<AudioStream> = None;
    let mut i: usize = 0;
    while i < ls.len()
        invariant
            i <= ls@.len(),
            ls@.len() == lsv.len(),
            forall|k: int| 0 <= k < ls@.len() ==> (#[trigger] ls@[k])@ == lsv[k],
            lsv == lines(output@),
            head@ == "Sink Input #"@,
            head@.len() == 12,
            ({
                let st = scan_streams(lsv.take(i as int));
                &&& done@.map_values(|x: AudioStream| x@) == st.0
                &&& st.1 == match cur {
                    Some(d) => Some(d@),
                    None => None,
                }
            }),
        decreases ls@.len() - i,
    {
        assert(lsv.take(i + 1).drop_last() =~= lsv.take(i as int));
        let t = trimmed(ls[i].as_slice());
        if starts_with_chars(t.as_slice(), head.as_slice()) {
            let prev = cur;
            push_named(&mut done, prev);
            let n = t.len();
            let rest = slice_chars(t.as_slice(), 12, n);
            assert(rest@ =~= t@.skip(12));
            let id = match parse_u32(rest.as_slice()) {
                Some(v) => v,
                None => 0,
            };
            cur = Some(AudioStream {
                id,
                name: String::new(),
                app_name: String::new(),
                icon_name: "audio-x-generic-symbolic".to_string(),
                volume_percent: 100,
                muted: false,
            });
        } else {
            match cur {
                Some(mut d) => {
                    update_stream(&mut d, &t);
                    cur = Some(d);
                },
                None => {
                    cur = None;
                },
            }
        }
        i += 1;
    }
    assert(lsv.take(i as int) =~= lsv);
    push_named(&mut done, cur);
    done
}

/// The last trimmed line of `body` that starts with `Mute:` contains `yes`.
pub open spec fn last_mute_says_yes(body: Seq<Seq<char>>) -> bool {
    exists|j: int| 0 <= j < body.len() && starts_with(trim(#[trigger] body[j]), "Mute:"@) && contains(trim(body[j]), "yes"@)
        && forall|k: int| j < k < body.len() ==> !starts_with(trim(#[trigger] body[k]), "Mute:"@)
}

/// Some trimmed line of `body` starts with `application.name = `, and
/// every such line gives a name that is not empty.
pub open spec fn names_application(body: Seq<Seq<char>>) -> bool {
    &&& exists|j: int| 0 <= j < body.len() && starts_with(trim(#[trigger] body[j]), "application.name = "@)
    &&& forall|j: int| 0 <= j < body.len() && starts_with(trim(#[trigger] body[j]), "application.name = "@)
        ==> trim_char(trim(body[j]).skip(19), '"').len() > 0
}

proof fn lemma_first_char(t: Seq<char>, p: Seq<char>)
    requires
        starts_with(t, p),
        p.len() > 0,
    ensures
        t[0] == p[0],
{
    assert(t.subrange(0, p.len() as int)[0] == t[0]);
}

proof fn lemma_stream_block(prefix: Seq<Seq<char>>, header: Seq<char>, body: Seq<Seq<char>>)
    requires
        starts_with(trim(header), "Sink Input #"@),
        forall|j: int| 0 <= j < body.len() ==> !starts_with(trim(#[trigger] body[j]), "Sink Input #"@),
    ensures
        ({
            let st = scan_streams(prefix.push(header) + body);
            let p = scan_streams(prefix);
            &&& st.0 == flushed_stream(p.0, p.1)
            &&& st.1 is Some
            &&& (st.1->0.muted <==> last_mute_says_yes(body))
            &&& names_application(body) ==> st.1->0.app_name.len() > 0
        }),
    decreases body.len(),
{
    reveal_strlit("Mute:");
    reveal_strlit("application.name = ");
    reveal_strlit("media.name = ");
    reveal_strlit("application.icon_name = ");
    reveal_strlit("Volume:");
    if body.len() == 0 {
        assert(prefix.push(header) + body =~= prefix.push(header));
        assert(prefix.push(header).drop_last() =~= prefix);
    } else {
        let b = body.drop_last();
        let x = body.last();
        assert forall|j: int| 0 <= j < b.len() implies !starts_with(trim(#[trigger] b[j]), "Sink Input #"@) by {
            assert(b[j] == body[j]);
        }
        lemma_stream_block(prefix, header, b);
        let ls = prefix.push(header) + b;
        assert(prefix.push(header) + body =~= ls.push(x));
        assert(ls.push(x).drop_last() =~= ls);
        let t = trim(x);
        assert(!starts_with(t, "Sink Input #"@)) by {
            assert(body[body.len() - 1] == x);
        }
        let d = scan_streams(ls).1->0;
        let e = stream_after(d, t);
        assert(scan_streams(prefix.push(header) + body).1 == Some(e));
        let is_mute = starts_with(t, "Mute:"@);
        let is_app = starts_with(t, "application.name = "@);
        if is_mute {
            lemma_first_char(t, "Mute:"@);
            if starts_with(t, "application.name = "@) {
                lemma_first_char(t, "application.name = "@);
            }
            if starts_with(t, "media.name = "@) {
                lemma_first_char(t, "media.name = "@);
            }
            if starts_with(t, "application.icon_name = "@) {
                lemma_first_char(t, "application.icon_name = "@);
            }
            if starts_with(t, "Volume:"@) {
                lemma_first_char(t, "Volume:"@);
            }
            assert(e.muted == contains(t, "yes"@));
            assert(e.app_name == d.app_name);
            if contains(t, "yes"@) {
                assert(body[body.len() - 1] == x);
                assert(last_mute_says_yes(body));
            }
            if last_mute_says_yes(body) {
                let j = choose|j: int| 0 <= j < body.len() && starts_with(trim(#[trigger] body[j]), "Mute:"@) && contains(trim(body[j]), "yes"@)
                    && forall|k: int| j < k < body.len() ==> !starts_with(trim(#[trigger] body[k]), "Mute:"@);
                if j < body.len() - 1 {
                    assert(body[body.len() - 1] == x);
                    assert(!starts_with(trim(body[body.len() - 1]), "Mute:"@));
                }
            }
            if names_application(body) {
                assert(!is_app);
                let j = choose|j: int| 0 <= j < body.len() && starts_with(trim(#[trigger] body[j]), "application.name = "@);
                assert(j != body.len() - 1);
                assert(b[j] == body[j]);
                assert forall|i: int| 0 <= i < b.len() && starts_with(trim(#[trigger] b[i]), "application.name = "@)
                    implies trim_char(trim(b[i]).skip(19), '"').len() > 0 by {
                    assert(b[i] == body[i]);
                }
                assert(names_application(b));
            }
        } else {
            assert(e.muted == d.muted);
            if last_mute_says_yes(b) {
                let j = choose|j: int| 0 <= j < b.len() && starts_with(trim(#[trigger] b[j]), "Mute:"@) && contains(trim(b[j]), "yes"@)
                    && forall|k: int| j < k < b.len() ==> !starts_with(trim(#[trigger] b[k]), "Mute:"@);
                assert(body[j] == b[j]);
                assert forall|k: int| j < k < body.len() implies !starts_with(trim(#[trigger] body[k]), "Mute:"@) by {
                    if k < b.len() {
                        assert(body[k] == b[k]);
                    } else {
                        assert(body[k] == x);
                    }
                }
                assert(last_mute_says_yes(body));
            }
            if last_mute_says_yes(body) {
                let j = choose|j: int| 0 <= j < body.len() && starts_with(trim(#[trigger] body[j]), "Mute:"@) && contains(trim(body[j]), "yes"@)
                    && forall|k: int| j < k < body.len() ==> !starts_with(trim(#[trigger] body[k]), "Mute:"@);
                assert(body[body.len() - 1] == x);
                assert(j != body.len() - 1);
                assert(b[j] == body[j]);
                assert forall|k: int| j < k < b.len() implies !starts_with(trim(#[trigger] b[k]), "Mute:"@) by {
                    assert(b[k] == body[k]);
                }
                assert(last_mute_says_yes(b));
            }
            if names_application(body) {
                if is_app {
                    assert(body[body.len() - 1] == x);
                    assert(e.app_name == trim_char(t.skip(19), '"'));
                } else {
                    assert(e.app_name == d.app_name);
                    let j = choose|j: int| 0 <= j < body.len() && starts_with(trim(#[trigger] body[j]), "application.name = "@);
                    assert(body[body.len() - 1] == x);
                    assert(j != body.len() - 1);
                    assert(b[j] == body[j]);
                    assert forall|i: int| 0 <= i < b.len() && starts_with(trim(#[trigger] b[i]), "application.name = "@)
                        implies trim_char(trim(b[i]).skip(19), '"').len() > 0 by {
                        assert(b[i] == body[i]);
                    }
                    assert(names_application(b));
                }
            }
        }
    }
}

/// A stream read from a block of a `pactl list sink-inputs` output (its
/// `Sink Input #` header, then lines up to the next header) that names its
/// application is muted exactly when the last `Mute:` line of the block
/// contains `yes`: a block whose `Mute:` line says `no`, or that has none,
/// gives an unmuted stream. When the block ends the output, that stream is
/// the last one read.
pub proof fn lemma_stream_muted_by_its_block(output: Seq<char>, prefix: Seq<Seq<char>>, header: Seq<char>, body: Seq<Seq<char>>)
    requires
        lines(output) == prefix.push(header) + body,
        starts_with(trim(header), "Sink Input #"@),
        forall|j: int| 0 <= j < body.len() ==> !starts_with(trim(#[trigger] body[j]), "Sink Input #"@),
        names_application(body),
    ensures
        streams_in(output).len() > 0,
        streams_in(output).last().muted <==> last_mute_says_yes(body),
{
    lemma_stream_block(prefix, header, body);
}

/// The ids of the streams in a `pactl list short sink-inputs` output: the
/// first word of each line that is a number, as written.
pub open spec fn stream_ids_in(output: Seq<char>) -> Seq<Seq<char>> {
    lines(output).filter(|l: Seq<char>| first_word(l) is Some && parse_unsigned(first_word(l)->0, u32::MAX as nat) is Some).map_values(|l: Seq<char>| first_word(l)->0)
}

/// The stream ids in a `pactl list short sink-inputs` output.
pub fn stream_ids(output: &str) -> (r: Vec<String>)
    ensures
        r@.map_values(|x: String| x@) == stream_ids_in(output@),
{
    let oc = chars_of(output);
    let ls = lines_of(oc.as_slice());
    let ghost lsv = lines(output@);
    let ghost p = |l: Seq<char>| first_word(l) is Some && parse_unsigned(first_word(l)->0, u32::MAX as nat) is Some;
    let ghost f = |l: Seq<char>| first_word(l)->0;
    let mut r: Vec<String> = Vec::new();
    let mut i: usize = 0;
    while i < ls.len()
        invariant
            i <= ls@.len(),
            ls@.len() == lsv.len(),
            forall|k: int| 0 <= k < ls@.len() ==> (#[trigger] ls@[k])@ == lsv[k],
            lsv == lines(output@),
            p == (|l: Seq<char>| first_word(l) is Some && parse_unsigned(first_word(l)->0, u32::MAX as nat) is Some),
            f == (|l: Seq<char>| first_word(l)->0),
            r@.map_values(|x: String| x@) == lsv.take(i as int).filter(p).map_values(f),
        decreases ls@.len() - i,
    {
        let ghost pre = lsv.take(i as int);
        assert(lsv.take(i + 1) =~= pre.push(lsv[i as int]));
        proof {
            pre.lemma_filter_push(lsv[i as int], p);
        }
        match first_word_of(ls[i].as_slice()) {
            Some(w) => {
                if parse_u32(w.as_slice()).is_some() {
                    let ghost old_r = r@;
                    r.push(string_from(w.as_slice()));
                    assert(r@.map_values(|x: String| x@) =~= old_r.map_values(|x: String| x@).push(w@));
                    assert(pre.push(lsv[i as int]).filter(p).map_values(f) =~= pre.filter(p).map_values(f).push(w@));
                } else {
                    assert(pre.push(lsv[i as int]).filter(p) =~= pre.filter(p));
                }
            },
            None => {
                assert(pre.push(lsv[i as int]).filter(p) =~= pre.filter(p));
            },
        }
        i += 1;
    }
    assert(lsv.take(i as int) =~= lsv);
    r
}

/// An icon for an application, from its lower-cased name.
pub open spec fn app_icon_for(lower: Seq<char>) -> Seq<char> {
    if contains(lower, "spotify"@) {
        "emblem-music-symbolic"@
    } else if contains(lower, "firefox"@) {
        "firefox-symbolic"@
    } else if contains(lower, "chrom"@) {
        "web-browser-symbolic"@
    } else if contains(lower, "discord"@) || contains(lower, "vesktop"@) {
        "user-available-symbolic"@
    } else if contains(lower, "steam"@) || contains(lower, "game"@) {
        "applications-games-symbolic"@
    } else if contains(lower, "mpv"@) || contains(lower, "vlc"@) {
        "video-x-generic-symbolic"@
    } else {
        "audio-x-generic-symbolic"@
    }
}

/// The icon for an application from its lower-cased name.
pub fn app_icon_for_lowercase(lower: &str) -> (r: &'static str)
    ensures
        r@ == app_icon_for(lower@),
{
    if str_contains(lower, "spotify") {
        "emblem-music-symbolic"
    } else if str_contains(lower, "firefox") {
        "firefox-symbolic"
    } else if str_contains(lower, "chrom") {
        "web-browser-symbolic"
    } else if str_contains(lower, "discord") || str_contains(lower, "vesktop") {
        "user-available-symbolic"
    } else if str_contains(lower, "steam") || str_contains(lower, "game") {
        "applications-games-symbolic"
    } else if str_contains(lower, "mpv") || str_contains(lower, "vlc") {
        "video-x-generic-symbolic"
    } else {
        "audio-x-generic-symbolic"
    }
}

/// An icon for an application, whatever the letter case of its name.
pub fn get_app_icon(app_name: &str) -> (r: &'static str)
    ensures
        r@ == app_icon_for(lowercase(app_name@)),
{
    let lower = to_lowercase(app_name);
    app_icon_for_lowercase(lower.as_str())
}

/// A stream's own name is shown under its application's when it has one
/// that differs from the application's name.
pub fn shows_stream_name(stream: &AudioStream) -> (r: bool)
    ensures
        r == (stream.name@.len() > 0 && stream.name@ != stream.app_name@),
{
    let n = chars_of(stream.name.as_str());
    n.len() > 0 && !str_eq(stream.name.as_str(), stream.app_name.as_str())
}

/// The icon of a stream's mute button.
pub fn mute_icon(muted: bool) -> (r: &'static str)
    ensures
        r@ == (if muted { "audio-volume-muted-symbolic"@ } else { "audio-volume-high-symbolic"@ }),
{
    if muted {
        "audio-volume-muted-symbolic"
    } else {
        "audio-volume-high-symbolic"
    }
}

} // verus!
