//! Names shortened to fit the volume control's rows.

use vstd::prelude::*;
use vstd::utf8::{encode_scalar, encode_utf8, is_char_boundary};
use crate::text::push_str;

verus! {

proof fn lemma_encode_concat(a: Seq<char>, b: Seq<char>)
    ensures
        encode_utf8(a + b) == encode_utf8(a) + encode_utf8(b),
    decreases a.len(),
{
    if a.len() == 0 {
        assert(a + b =~= b);
        assert(encode_utf8(a) + encode_utf8(b) =~= encode_utf8(b));
    } else {
        assert((a + b)[0] == a[0]);
        assert((a + b).drop_first() =~= a.drop_first() + b);
        lemma_encode_concat(a.drop_first(), b);
        assert(encode_utf8(a + b) =~= encode_utf8(a) + encode_utf8(b));
    }
}

/// `r` is `s` cut to fit `max` bytes as the volume control cuts names:
/// unchanged when it fits, else its first `max - 3` bytes and `...`.
pub open spec fn truncated(s: Seq<char>, r: Seq<char>, max: nat) -> bool {
    if encode_utf8(s).len() <= max {
        r == s
    } else {
        encode_utf8(r) == encode_utf8(s).take(max - 3) + encode_utf8("..."@)
    }
}

/// A name that is cut fits exactly: when `s` takes more than `max` bytes
/// (and `max` is at least 3), the cut name takes `max` bytes.
pub proof fn lemma_truncated_length(s: Seq<char>, r: Seq<char>, max: nat)
    requires
        truncated(s, r, max),
        encode_utf8(s).len() > max,
        max >= 3,
    ensures
        encode_utf8(r).len() == max,
{
    reveal_strlit("...");
    let d = "..."@;
    assert(d.len() == 3);
    assert(d[0] == '.' && d[1] == '.' && d[2] == '.');
    let d1 = d.drop_first();
    let d2 = d1.drop_first();
    let d3 = d2.drop_first();
    assert(d3 =~= Seq::<char>::empty());
    assert(encode_utf8(d3).len() == 0);
    assert(d2[0] == '.' && d1[0] == '.');
    assert(encode_scalar('.' as u32).len() == 1);
    assert(encode_utf8(d2) == encode_scalar(d2[0] as u32) + encode_utf8(d3));
    assert(encode_utf8(d2).len() == 1);
    assert(encode_utf8(d1) == encode_scalar(d1[0] as u32) + encode_utf8(d2));
    assert(encode_utf8(d1).len() == 2);
    assert(encode_utf8(d) == encode_scalar(d[0] as u32) + encode_utf8(d1));
    assert(encode_utf8(d).len() == 3);
}

/// A name cut to fit `max_len` bytes, with `...` at the end when cut.
pub fn truncate_string(s: &str, max_len: usize) -> (r: String)
    requires
        encode_utf8(s@).len() <= usize::MAX,
        encode_utf8(s@).len() > max_len ==> max_len >= 3 && is_char_boundary(encode_utf8(s@), max_len - 3),
    ensures
        truncated(s@, r@, max_len as nat),
{
    if s.len() <= max_len {
        return s.to_string();
    }
    let (a, _) = s.split_at(max_len - 3);
    let mut r = a.to_string();
    push_str(&mut r, "...");
    proof {
        lemma_encode_concat(a@, "..."@);
    }
    r
}

} // verus!
