//! The sliders of the control center: the audio outputs that `wpctl status`
//! lists, the default one, the volume token and the brightness level.

use vstd::prelude::*;
use crate::text::{lemma_find, occurs_at, before_char, before_char_of, chars_of, contains, contains_chars, find, find_chars, is_digit, lines, lines_of, parse_u32, parse_unsigned, second_word, second_word_of, slice_chars, string_from, trim, trimmed};

verus! {

/// The ASCII digits of `s`, in order.
pub open spec fn digits_in(s: Seq<char>) -> Seq<char>
    decreases s.len(),
{
    if s.len() == 0 {
        seq![]
    } else if is_digit(s.last()) {
        digits_in(s.drop_last()).push(s.last())
    } else {
        digits_in(s.drop_last())
    }
}

/// The id of a `wpctl status` line: the digits before its first `.`.
pub open spec fn line_id(line: Seq<char>) -> Seq<char> {
    digits_in(before_char(line, '.'))
}

/// A sink line such as ` │  *  46. Device Name [vol: 1.00]`: its id and
/// the name between `. ` and ` [`, trimmed. Lines without both marks, or
/// without an id, list no sink.
#[verifier::opaque]
pub open spec fn sink_line(line: Seq<char>) -> Option<(Seq<char>, Seq<char>)> {
    match find(line, ". "@) {
        Some(i) => {
            let rest = line.skip(i + 2);
            match find(rest, " ["@) {
                Some(j) => if line_id(line).len() > 0 {
                    Some((line_id(line), trim(rest.take(j))))
                } else {
                    None
                },
                None => None,
            }
        },
        None => None,
    }
}

/// The sinks that the lines `ls` list, once a `Sinks:` line was seen
/// (`in_sinks`): lines with `Sinks:` are passed over, and the list ends at
/// a line with `Sources:` or a blank one.
pub open spec fn sink_scan(ls: Seq<Seq<char>>, in_sinks: bool) -> Seq<(Seq<char>, Seq<char>)>
    decreases ls.len(),
{
    if ls.len() == 0 {
        seq![]
    } else if contains(ls[0], "Sinks:"@) {
        sink_scan(ls.drop_first(), true)
    } else if !in_sinks {
        sink_scan(ls.drop_first(), false)
    } else if contains(ls[0], "Sources:"@) || trim(ls[0]).len() == 0 {
        seq![]
    } else {
        match sink_line(ls[0]) {
            Some(p) => seq![p] + sink_scan(ls.drop_first(), true),
            None => sink_scan(ls.drop_first(), true),
        }
    }
}

/// The audio outputs in the output of `wpctl status`.
pub open spec fn wpctl_sinks(status: Seq<char>) -> Seq<(Seq<char>, Seq<char>)> {
    sink_scan(lines(status), false)
}

/// The id of the first line with both `*` and `.`, or nothing.
pub open spec fn starred_id(ls: Seq<Seq<char>>) -> Seq<char>
    decreases ls.len(),
{
    if ls.len() == 0 {
        seq![]
    } else if contains(ls[0], "*"@) && contains(ls[0], "."@) {
        line_id(ls[0])
    } else {
        starred_id(ls.drop_first())
    }
}

fn digits_of(s: &[char]) -> (r: Vec<char>)
    ensures
        r@ == digits_in(s@),
{
    let mut r: Vec<char> = Vec::new();
    let mut i: usize = 0;
    while i < s.len()
        invariant
            i <= s.len(),
            r@ == digits_in(s@.take(i as int)),
        decreases s.len() - i,
    {
        assert(s@.take(i + 1).drop_last() =~= s@.take(i as int));
        if '0' <= s[i] && s[i] <= '9' {
            r.push(s[i]);
        }
        i += 1;
    }
    assert(s@.take(i as int) =~= s@);
    r
}

fn line_id_of(line: &[char]) -> (r: Vec<char>)
    ensures
        r@ == line_id(line@),
{
    let head = before_char_of(line, '.');
    digits_of(head.as_slice())
}

fn sink_of(line: &[char]) -> (r: Option<(String, String)>)
    ensures
        r matches Some(p) ==> sink_line(line@) == Some((p.0@, p.1@)),
        r is None ==> sink_line(line@) is None,
{
    let dot_space = chars_of(". ");
    let bracket = chars_of(" [");
    proof {
        reveal(sink_line);
        reveal_strlit(". ");
        reveal_strlit(" [");
    }
    let n = line.len();
    match find_chars(line, dot_space.as_slice()) {
        Some(i) => {
            proof {
                lemma_find(line@, dot_space@);
                assert(dot_space@.len() == 2);
                assert(occurs_at(line@, dot_space@, i as int));
                assert(i + 2 <= n);
            }
            let rest = slice_chars(line, i + 2, n);
            assert(rest@ =~= line@.skip(i + 2));
            match find_chars(rest.as_slice(), bracket.as_slice()) {
                Some(j) => {
                    proof {
                        lemma_find(rest@, bracket@);
                        assert(occurs_at(rest@, bracket@, j as int));
                    }
                    let id = line_id_of(line);
                    if id.len() > 0 {
                        let name = slice_chars(rest.as_slice(), 0, j);
                        assert(name@ =~= rest@.take(j as int));
                        let t = trimmed(name.as_slice());
                        Some((string_from(id.as_slice()), string_from(t.as_slice())))
                    } else {
                        None
                    }
                },
                None => None,
            }
        },
        None => None,
    }
}

/// The audio outputs, as pairs of id and name, that `wpctl status` lists
/// under `Sinks:`.
pub fn audio_outputs(status: &str) -> (r: Vec<(String, String)>)
    ensures
        r@.len() == wpctl_sinks(status@).len(),
        forall|k: int| 0 <= k < r@.len() ==> ((#[trigger] r@[k]).0@, r@[k].1@) == wpctl_sinks(status@)[k],
{
    let cs = chars_of(status);
    let ls = lines_of(cs.as_slice());
    let ghost lv = lines(status@);
    let sinks_word = chars_of("Sinks:");
    let sources_word = chars_of("Sources:");
    let mut r: Vec<(String, String)> = Vec::new();
    let ghost mut acc: Seq<(Seq<char>, Seq<char>)> = seq![];
    let mut in_sinks = false;
    let mut i: usize = 0;
    assert(lv.skip(0) =~= lv);
    assert(acc + sink_scan(lv, false) =~= sink_scan(lv, false));
    while i < ls.len()
        invariant_except_break
            i <= ls@.len(),
            ls@.len() == lv.len(),
            lv == lines(status@),
            forall|k: int| 0 <= k < ls@.len() ==> (#[trigger] ls@[k])@ == lv[k],
            sinks_word@ == "Sinks:"@,
            sources_word@ == "Sources:"@,
            r@.len() == acc.len(),
            forall|k: int| 0 <= k < r@.len() ==> ((#[trigger] r@[k]).0@, r@[k].1@) == acc[k],
            acc + sink_scan(lv.skip(i as int), in_sinks) == sink_scan(lv, false),
        ensures
            r@.len() == acc.len(),
            forall|k: int| 0 <= k < r@.len() ==> ((#[trigger] r@[k]).0@, r@[k].1@) == acc[k],
            acc == sink_scan(lv, false),
        decreases ls@.len() - i,
    {
        let line = &ls[i];
        let ghost rest = lv.skip(i as int);
        assert(rest[0] == line@);
        assert(rest.drop_first() =~= lv.skip(i + 1));
        if contains_chars(line.as_slice(), sinks_word.as_slice()) {
            in_sinks = true;
        } else if in_sinks {
            let t = trimmed(line.as_slice());
            if contains_chars(line.as_slice(), sources_word.as_slice()) || t.len() == 0 {
                assert(acc =~= acc + Seq::<(Seq<char>, Seq<char>)>::empty());
                break;
            }
            match sink_of(line.as_slice()) {
                Some(p) => {
                    proof {
                        assert(acc.push((p.0@, p.1@)) + sink_scan(lv.skip(i + 1), true) =~= acc + (seq![(p.0@, p.1@)] + sink_scan(lv.skip(i + 1), true)));
                        acc = acc.push((p.0@, p.1@));
                    }
                    r.push(p);
                },
                None => {},
            }
        }
        i += 1;
    }
    proof {
        if i == ls@.len() {
            assert(lv.skip(i as int).len() == 0);
            assert(acc + Seq::<(Seq<char>, Seq<char>)>::empty() =~= acc);
        }
    }
    r
}

/// The id of the default output: that of the first line of `wpctl status`
/// with a `*` and a `.`; empty when there is none.
pub fn current_output(status: &str) -> (r: String)
    ensures
        r@ == starred_id(lines(status@)),
{
    let cs = chars_of(status);
    let ls = lines_of(cs.as_slice());
    let ghost lv = lines(status@);
    let star = chars_of("*");
    let dot = chars_of(".");
    let mut i: usize = 0;
    assert(lv.skip(0) =~= lv);
    while i < ls.len()
        invariant
            i <= ls@.len(),
            ls@.len() == lv.len(),
            lv == lines(status@),
            forall|k: int| 0 <= k < ls@.len() ==> (#[trigger] ls@[k])@ == lv[k],
            star@ == "*"@,
            dot@ == "."@,
            starred_id(lv.skip(i as int)) == starred_id(lv),
        decreases ls@.len() - i,
    {
        let line = &ls[i];
        let ghost rest = lv.skip(i as int);
        assert(rest[0] == line@);
        assert(rest.drop_first() =~= lv.skip(i + 1));
        if contains_chars(line.as_slice(), star.as_slice()) && contains_chars(line.as_slice(), dot.as_slice()) {
            let id = line_id_of(line.as_slice());
            return string_from(id.as_slice());
        }
        i += 1;
    }
    assert(lv.skip(i as int).len() == 0);
    String::new()
}

/// The second word of `wpctl get-volume`'s output (`Volume: 0.45`), the
/// volume as a fraction.
pub fn volume_token(output: &str) -> (r: Option<String>)
    ensures
        r matches Some(t) ==> second_word(output@) == Some(t@),
        r is None ==> second_word(output@) is None,
{
    let cs = chars_of(output);
    match second_word_of(cs.as_slice()) {
        Some(w) => Some(string_from(w.as_slice())),
        None => None,
    }
}

/// The brightness in percent from what `brightnessctl get` and
/// `brightnessctl max` printed: an unreadable level counts as 0, an
/// unreadable maximum as 1, and a zero maximum gives 50.
pub open spec fn brightness_level(current: Seq<char>, max: Seq<char>) -> nat {
    let c = match parse_unsigned(trim(current), u32::MAX as nat) {
        Some(v) => v,
        None => 0,
    };
    let m = match parse_unsigned(trim(max), u32::MAX as nat) {
        Some(v) => v,
        None => 1,
    };
    if m > 0 {
        c * 100 / m
    } else {
        50
    }
}

/// The brightness in percent, from the outputs of `brightnessctl get` and
/// `brightnessctl max`. The level times 100 must fit in a `u32`.
pub fn brightness_percent(current_output: &str, max_output: &str) -> (r: u32)
    requires
        parse_unsigned(trim(current_output@), u32::MAX as nat) matches Some(c) ==> c * 100 <= u32::MAX,
    ensures
        r == brightness_level(current_output@, max_output@),
{
    let c = chars_of(current_output);
    let ct = trimmed(c.as_slice());
    let current: u32 = match parse_u32(ct.as_slice()) {
        Some(v) => v,
        None => 0,
    };
    let m = chars_of(max_output);
    let mt = trimmed(m.as_slice());
    let max: u32 = match parse_u32(mt.as_slice()) {
        Some(v) => v,
        None => 1,
    };
    if max > 0 {
        (current * 100) / max
    } else {
        50
    }
}

} // verus!
