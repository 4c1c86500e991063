//! Removing the simple markup that notification bodies carry.

use vstd::prelude::*;
use crate::text::{chars_of, find, find_chars, lemma_find, occurs_at, replace, replace_chars, slice_chars, string_from};

verus! {

/// `s[..start] + s[from..to] + s[after..]`.
pub open spec fn splice(s: Seq<char>, start: int, from: int, to: int, after: int) -> Seq<char> {
    s.take(start) + s.subrange(from, to) + s.skip(after)
}

/// Links `<a ...>text</a>` replaced by their text, first to last; it stops
/// at the first `<a` that has no `>` after it, or no `</a>` after that.
pub open spec fn unwrap_links(s: Seq<char>) -> Seq<char>
    decreases s.len(),
{
    match find(s, "<a"@) {
        None => s,
        Some(start) => match find(s.skip(start), ">"@) {
            None => s,
            Some(te) => {
                let body = start + te + 1;
                match find(s.skip(body), "</a>"@) {
                    None => s,
                    Some(c) => {
                        proof {
                            lemma_find(s, "<a"@);
                            lemma_find(s.skip(start), ">"@);
                            lemma_find(s.skip(body), "</a>"@);
                            reveal_strlit("<a");
                            reveal_strlit(">");
                            reveal_strlit("</a>");
                        }
                        unwrap_links(splice(s, start, body, body + c, body + c + 4))
                    },
                }
            },
        },
    }
}

/// Tags `<...>` removed, first to last; it stops at the first `<` that has
/// no `>` after it.
pub open spec fn drop_tags(s: Seq<char>) -> Seq<char>
    decreases s.len(),
{
    match find(s, "<"@) {
        None => s,
        Some(start) => match find(s.skip(start), ">"@) {
            None => s,
            Some(e) => {
                proof {
                    lemma_find(s, "<"@);
                    lemma_find(s.skip(start), ">"@);
                    reveal_strlit("<");
                    reveal_strlit(">");
                }
                drop_tags(s.take(start) + s.skip(start + e + 1))
            },
        },
    }
}


/// `s` with every `pat` removed.
pub open spec fn strip(s: Seq<char>, pat: Seq<char>) -> Seq<char> {
    replace(s, pat, ""@)
}

/// The bold, italic, underline and line-break tags removed, in that order.
pub open spec fn without_format_tags(s: Seq<char>) -> Seq<char> {
    strip(strip(strip(strip(strip(strip(strip(strip(s, "<b>"@), "</b>"@), "<i>"@), "</i>"@), "<u>"@), "</u>"@), "<br>"@), "<br/>"@)
}

/// The basic entities `&lt;`, `&gt;`, `&amp;` and `&quot;` decoded, in
/// that order.
pub open spec fn decode_basic_entities(s: Seq<char>) -> Seq<char> {
    replace(replace(replace(replace(s, "&lt;"@, "<"@), "&gt;"@, ">"@), "&amp;"@, "&"@), "&quot;"@, "\""@)
}

/// The markup a popup removes from a notification body: formatting tags
/// (also `<br />`), links kept as their text, any other tag, then the
/// entities, `&#39;` and `&apos;` among them.
pub open spec fn popup_text(s: Seq<char>) -> Seq<char> {
    replace(
        replace(decode_basic_entities(drop_tags(unwrap_links(strip(without_format_tags(s), "<br />"@)))), "&#39;"@, "'"@),
        "&apos;"@,
        "'"@,
    )
}

/// The markup the panel removes from a notification body: formatting tags
/// and the basic entities.
pub open spec fn panel_text(s: Seq<char>) -> Seq<char> {
    decode_basic_entities(without_format_tags(s))
}

fn replace_lit(s: Vec<char>, from: &str, to: &str) -> (r: Vec<char>)
    requires
        from@.len() > 0,
    ensures
        r@ == replace(s@, from@, to@),
{
    let f = chars_of(from);
    let t = chars_of(to);
    replace_chars(s.as_slice(), f.as_slice(), t.as_slice())
}

fn strip_format_tags(s: Vec<char>) -> (r: Vec<char>)
    ensures
        r@ == without_format_tags(s@),
{
    proof {
        reveal_strlit("<b>");
        reveal_strlit("</b>");
        reveal_strlit("<i>");
        reveal_strlit("</i>");
        reveal_strlit("<u>");
        reveal_strlit("</u>");
        reveal_strlit("<br>");
        reveal_strlit("<br/>");
    }
    let s = replace_lit(s, "<b>", "");
    let s = replace_lit(s, "</b>", "");
    let s = replace_lit(s, "<i>", "");
    let s = replace_lit(s, "</i>", "");
    let s = replace_lit(s, "<u>", "");
    let s = replace_lit(s, "</u>", "");
    let s = replace_lit(s, "<br>", "");
    replace_lit(s, "<br/>", "")
}

fn decode_entities(s: Vec<char>) -> (r: Vec<char>)
    ensures
        r@ == decode_basic_entities(s@),
{
    proof {
        reveal_strlit("&lt;");
        reveal_strlit("&gt;");
        reveal_strlit("&amp;");
        reveal_strlit("&quot;");
    }
    let s = replace_lit(s, "&lt;", "<");
    let s = replace_lit(s, "&gt;", ">");
    let s = replace_lit(s, "&amp;", "&");
    replace_lit(s, "&quot;", "\"")
}

fn splice_chars(s: &Vec<char>, start: usize, from: usize, to: usize, after: usize) -> (r: Vec<char>)
    requires
        start <= from <= to <= after <= s@.len(),
    ensures
        r@ == splice(s@, start as int, from as int, to as int, after as int),
{
    let mut r = slice_chars(s.as_slice(), 0, start);
    let mut mid = slice_chars(s.as_slice(), from, to);
    let mut end = slice_chars(s.as_slice(), after, s.len());
    r.append(&mut mid);
    r.append(&mut end);
    assert(s@.take(start as int) =~= s@.subrange(0, start as int));
    assert(s@.skip(after as int) =~= s@.subrange(after as int, s@.len() as int));
    r
}

fn unwrap_links_in(s: Vec<char>) -> (r: Vec<char>)
    ensures
        r@ == unwrap_links(s@),
    decreases s@.len(),
{
    let open_tag = chars_of("<a");
    let gt = chars_of(">");
    let close_tag = chars_of("</a>");
    proof {
        reveal_strlit("<a");
        reveal_strlit(">");
        reveal_strlit("</a>");
        lemma_find(s@, "<a"@);
    }
    match find_chars(s.as_slice(), open_tag.as_slice()) {
        None => s,
        Some(start) => {
            let rest = slice_chars(s.as_slice(), start, s.len());
            assert(rest@ =~= s@.skip(start as int));
            proof {
                lemma_find(rest@, ">"@);
            }
            match find_chars(rest.as_slice(), gt.as_slice()) {
                None => s,
                Some(te) => {
                    let body = start + te + 1;
                    let rest2 = slice_chars(s.as_slice(), body, s.len());
                    assert(rest2@ =~= s@.skip(body as int));
                    proof {
                        lemma_find(rest2@, "</a>"@);
                    }
                    match find_chars(rest2.as_slice(), close_tag.as_slice()) {
                        None => s,
                        Some(c) => {
                            let next = splice_chars(&s, start, body, body + c, body + c + 4);
                            unwrap_links_in(next)
                        },
                    }
                },
            }
        },
    }
}

fn drop_tags_in(s: Vec<char>) -> (r: Vec<char>)
    ensures
        r@ == drop_tags(s@),
    decreases s@.len(),
{
    let lt = chars_of("<");
    let gt = chars_of(">");
    proof {
        reveal_strlit("<");
        reveal_strlit(">");
        lemma_find(s@, "<"@);
    }
    match find_chars(s.as_slice(), lt.as_slice()) {
        None => s,
        Some(start) => {
            let rest = slice_chars(s.as_slice(), start, s.len());
            assert(rest@ =~= s@.skip(start as int));
            proof {
                lemma_find(rest@, ">"@);
            }
            match find_chars(rest.as_slice(), gt.as_slice()) {
                None => s,
                Some(e) => {
                    let next = splice_chars(&s, start, start, start, start + e + 1);
                    assert(next@ =~= s@.take(start as int) + s@.skip(start + e + 1));
                    drop_tags_in(next)
                },
            }
        },
    }
}

/// The text of a notification body as a popup shows it.
pub fn strip_popup_markup(text: &str) -> (r: String)
    ensures
        r@ == popup_text(text@),
{
    proof {
        reveal_strlit("<br />");
        reveal_strlit("&#39;");
        reveal_strlit("&apos;");
    }
    let s = chars_of(text);
    let s = strip_format_tags(s);
    let s = replace_lit(s, "<br />", "");
    let s = unwrap_links_in(s);
    let s = drop_tags_in(s);
    let s = decode_entities(s);
    let s = replace_lit(s, "&#39;", "'");
    let s = replace_lit(s, "&apos;", "'");
    string_from(s.as_slice())
}

/// The text of a notification body as the panel shows it.
pub fn strip_panel_markup(text: &str) -> (r: String)
    ensures
        r@ == panel_text(text@),
{
    let s = chars_of(text);
    let s = strip_format_tags(s);
    let s = decode_entities(s);
    string_from(s.as_slice())
}

} // verus!
