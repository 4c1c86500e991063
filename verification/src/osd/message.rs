//! What a client writes to the on-screen display's socket.

use vstd::prelude::*;
use crate::text::{before_char, before_char_of, chars_eq, chars_of, index_of, index_of_from, second_piece, second_piece_of, slice_chars, string_from, trim, trimmed};

verus! {

/// `s.split(c).nth(2)`: the piece after the second `c`, up to a third.
pub open spec fn third_piece(s: Seq<char>, c: char) -> Option<Seq<char>> {
    let i = index_of(s, c);
    if i < s.len() {
        second_piece(s.skip(i + 1 as int), c)
    } else {
        None
    }
}

/// A `volume:<level>` or `volume:<level>:muted` line, trimmed and split at
/// `:`: the level's text and whether the third piece is `muted`. Lines of
/// one piece, or whose first piece is not `volume`, say nothing.
pub open spec fn volume_message(line: Seq<char>) -> Option<(Seq<char>, bool)> {
    let t = trim(line);
    if index_of(t, ':') < t.len() && before_char(t, ':') == "volume"@ {
        match second_piece(t, ':') {
            Some(level) => Some((level, third_piece(t, ':') == Some("muted"@))),
            None => None,
        }
    } else {
        None
    }
}

/// Reads a line a client sent: the volume level's text, to be parsed as a
/// number, and whether the sound is muted.
pub fn parse_volume_message(line: &str) -> (r: Option<(String, bool)>)
    ensures
        r matches Some(p) ==> volume_message(line@) == Some((p.0@, p.1)),
        r is None ==> volume_message(line@) is None,
{
    let cs = chars_of(line);
    let t = trimmed(cs.as_slice());
    let n = t.len();
    let i = index_of_from(t.as_slice(), ':', 0);
    assert(t@.skip(0) =~= t@);
    if i == n {
        return None;
    }
    let head = before_char_of(t.as_slice(), ':');
    let word = chars_of("volume");
    if !chars_eq(head.as_slice(), word.as_slice()) {
        return None;
    }
    match second_piece_of(t.as_slice(), ':') {
        Some(level) => {
            let rest = slice_chars(t.as_slice(), i + 1, n);
            assert(rest@ =~= t@.skip(i + 1 as int));
            let third = second_piece_of(rest.as_slice(), ':');
            let muted_word = chars_of("muted");
            let muted = match third {
                Some(p) => chars_eq(p.as_slice(), muted_word.as_slice()),
                None => false,
            };
            Some((string_from(level.as_slice()), muted))
        },
        None => None,
    }
}

} // verus!
