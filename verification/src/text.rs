//! Character-level text utilities with specifications over `Seq<char>`.

use vstd::prelude::*;

verus! {

/// Appends one character to a `String` through `String::push`.
#[verifier::external_body]
pub(crate) fn push_char(s: &mut String, c: char)
    ensures
        final(s)@ == old(s)@.push(c),
{
    s.push(c);
}

/// The characters of a string slice, in order.
pub fn chars_of(s: &str) -> (v: Vec<char>)
    ensures
        v@ == s@,
{
    let mut v: Vec<char> = Vec::new();
    for c in it: s.chars()
        invariant
            v@ == it.seq().take(it.index()),
    {
        v.push(c);
    }
    v
}

/// A `String` made of the given characters.
pub fn string_from(cs: &[char]) -> (r: String)
    ensures
        r@ == cs@,
{
    let mut r = String::new();
    let mut i: usize = 0;
    while i < cs.len()
        invariant
            i <= cs.len(),
            r@ == cs@.take(i as int),
        decreases cs.len() - i,
    {
        push_char(&mut r, cs[i]);
        assert(cs@.take(i as int).push(cs@[i as int]) =~= cs@.take(i + 1));
        i += 1;
    }
    assert(cs@.take(cs.len() as int) =~= cs@);
    r
}


// ---------------------------------------------------------------------------
// Decimal numbers
// ---------------------------------------------------------------------------

/// The character of a decimal digit `d < 10`.
pub open spec fn digit_char(d: nat) -> char {
    ((d + 48) as u32) as char
}

/// Decimal representation of a natural number, without leading zeros.
pub open spec fn dec(n: nat) -> Seq<char>
    decreases n,
{
    if n < 10 {
        seq![digit_char(n)]
    } else {
        dec(n / 10).push(digit_char(n % 10))
    }
}

/// Decimal representation of an integer, with a leading `-` when negative.
pub open spec fn dec_int(n: int) -> Seq<char> {
    if n < 0 {
        seq!['-'] + dec((-n) as nat)
    } else {
        dec(n as nat)
    }
}

/// What `{:02}` produces for an integer: a zero in front of a single digit.
pub open spec fn dec_pad2(n: int) -> Seq<char> {
    if 0 <= n < 10 {
        seq!['0', digit_char(n as nat)]
    } else {
        dec_int(n)
    }
}

pub fn digit_to_char(d: u64) -> (c: char)
    requires
        d < 10,
    ensures
        c == digit_char(d as nat),
{
    let b: u8 = (d as u8) + 48;
    b as char
}

/// Appends the decimal digits of `n`.
pub fn push_dec(s: &mut String, n: u64)
    ensures
        final(s)@ == old(s)@ + dec(n as nat),
    decreases n,
{
    if n >= 10 {
        push_dec(s, n / 10);
    }
    let c = digit_to_char(n % 10);
    push_char(s, c);
    proof {
        if n >= 10 {
            assert(dec(n as nat) == dec((n / 10) as nat).push(digit_char((n % 10) as nat)));
        }
    }
}

/// Appends the decimal form of a signed number.
pub fn push_dec_i64(s: &mut String, n: i64)
    ensures
        final(s)@ == old(s)@ + dec_int(n as int),
{
    if n < 0 {
        push_char(s, '-');
        let m: u64 = (0i128 - (n as i128)) as u64;
        push_dec(s, m);
        assert(final(s)@ =~= old(s)@ + dec_int(n as int));
    } else {
        push_dec(s, n as u64);
    }
}

/// `{:02}` of a signed number.
pub fn push_dec_pad2(s: &mut String, n: i64)
    ensures
        final(s)@ == old(s)@ + dec_pad2(n as int),
{
    if 0 <= n && n < 10 {
        push_char(s, '0');
        let c = digit_to_char(n as u64);
        push_char(s, c);
        assert(final(s)@ =~= old(s)@ + dec_pad2(n as int));
    } else {
        push_dec_i64(s, n);
    }
}

/// Appends a string slice.
pub fn push_str(s: &mut String, t: &str)
    ensures
        final(s)@ == old(s)@ + t@,
{
    let cs = chars_of(t);
    let mut i: usize = 0;
    while i < cs.len()
        invariant
            i <= cs.len(),
            cs@ == t@,
            s@ == old(s)@ + t@.take(i as int),
        decreases cs.len() - i,
    {
        push_char(s, cs[i]);
        assert(t@.take(i as int).push(t@[i as int]) =~= t@.take(i + 1));
        i += 1;
    }
    assert(t@.take(i as int) =~= t@);
}

/// The decimal form of `n`, as `n.to_string()` gives it.
pub fn u64_to_string(n: u64) -> (r: String)
    ensures
        r@ == dec(n as nat),
{
    let mut r = String::new();
    push_dec(&mut r, n);
    assert(r@ =~= dec(n as nat));
    r
}

// ---------------------------------------------------------------------------
// Parsing unsigned numbers as `str::parse` does
// ---------------------------------------------------------------------------

pub open spec fn is_digit(c: char) -> bool {
    '0' <= c && c <= '9'
}

pub open spec fn all_digits(s: Seq<char>) -> bool {
    forall|i: int| 0 <= i < s.len() ==> is_digit(#[trigger] s[i])
}

/// The value of a string of decimal digits.
pub open spec fn digits_value(s: Seq<char>) -> nat
    decreases s.len(),
{
    if s.len() == 0 {
        0
    } else {
        digits_value(s.drop_last()) * 10 + ((s.last() as u32) - 48) as nat
    }
}

/// The digits of an unsigned number: an optional leading `+` is dropped.
pub open spec fn unsigned_digits(s: Seq<char>) -> Seq<char> {
    if s.len() > 0 && s[0] == '+' {
        s.drop_first()
    } else {
        s
    }
}

/// What `s.parse::<uN>()` gives, for an unsigned type whose largest value is
/// `max`: `Some` of the value for one or more ASCII digits after an optional
/// `+`, when the value fits, and `None` otherwise.
pub open spec fn parse_unsigned(s: Seq<char>, max: nat) -> Option<nat> {
    let d = unsigned_digits(s);
    if d.len() > 0 && all_digits(d) && digits_value(d) <= max {
        Some(digits_value(d))
    } else {
        None
    }
}

proof fn lemma_digits_value_prefix_le(s: Seq<char>, i: int)
    requires
        0 <= i <= s.len(),
        all_digits(s),
    ensures
        digits_value(s.take(i)) <= digits_value(s),
    decreases s.len() - i,
{
    if i < s.len() {
        lemma_digits_value_prefix_le(s, i + 1);
        let t = s.take(i + 1);
        assert(t.drop_last() =~= s.take(i));
        assert(is_digit(s[i]));
    } else {
        assert(s.take(i) =~= s);
    }
}

/// Parses an unsigned decimal number no larger than `max`.
fn parse_uint(s: &[char], max: u64) -> (r: Option<u64>)
    requires
        max >= 9,
    ensures
        r matches Some(v) ==> parse_unsigned(s@, max as nat) == Some(v as nat),
        r is None ==> parse_unsigned(s@, max as nat) is None,
{
    let start: usize = if s.len() > 0 && s[0] == '+' { 1 } else { 0 };
    let ghost d = unsigned_digits(s@);
    assert(d =~= s@.skip(start as int));
    if start == s.len() {
        return None;
    }
    let mut acc: u64 = 0;
    let mut i: usize = start;
    while i < s.len()
        invariant
            start <= i <= s.len(),
            d == s@.skip(start as int),
            d == unsigned_digits(s@),
            max >= 9,
            all_digits(d.take(i - start)),
            acc as nat == digits_value(d.take(i - start)),
            acc <= max,
        decreases s.len() - i,
    {
        let c = s[i];
        assert(d[i - start] == c);
        if !('0' <= c && c <= '9') {
            assert(!all_digits(d)) by {
                assert(!is_digit(d[i - start]));
            }
            return None;
        }
        let dv: u64 = (c as u32 - 48) as u64;
        let ghost pre = d.take(i - start);
        let ghost nxt = d.take(i - start + 1);
        assert(nxt.drop_last() =~= pre);
        assert(nxt.last() == c);
        assert(digits_value(nxt) == digits_value(pre) * 10 + dv);
        if acc > (max - dv) / 10 {
            proof {
                assert(acc * 10 + dv > max) by (nonlinear_arith)
                    requires acc > (max - dv) / 10, dv <= max;
                if all_digits(d) {
                    lemma_digits_value_prefix_le(d, i - start + 1);
                }
            }
            return None;
        }
        proof {
            assert(acc * 10 + dv <= max) by (nonlinear_arith)
                requires acc <= (max - dv) / 10, dv <= max;
        }
        acc = acc * 10 + dv;
        i += 1;
    }
    assert(d.take(i - start) =~= d);
    Some(acc)
}

/// `s.parse::<u64>()`.
pub fn parse_u64(s: &[char]) -> (r: Option<u64>)
    ensures
        r matches Some(v) ==> parse_unsigned(s@, u64::MAX as nat) == Some(v as nat),
        r is None ==> parse_unsigned(s@, u64::MAX as nat) is None,
{
    parse_uint(s, u64::MAX)
}

/// `s.parse::<u32>()`.
pub fn parse_u32(s: &[char]) -> (r: Option<u32>)
    ensures
        r matches Some(v) ==> parse_unsigned(s@, u32::MAX as nat) == Some(v as nat),
        r is None ==> parse_unsigned(s@, u32::MAX as nat) is None,
{
    match parse_uint(s, u32::MAX as u64) {
        Some(v) => Some(v as u32),
        None => None,
    }
}

/// `s.parse::<u8>()`.
pub fn parse_u8(s: &[char]) -> (r: Option<u8>)
    ensures
        r matches Some(v) ==> parse_unsigned(s@, u8::MAX as nat) == Some(v as nat),
        r is None ==> parse_unsigned(s@, u8::MAX as nat) is None,
{
    match parse_uint(s, u8::MAX as u64) {
        Some(v) => Some(v as u8),
        None => None,
    }
}


// ---------------------------------------------------------------------------
// Whitespace and trimming
// ---------------------------------------------------------------------------

/// Unicode `White_Space`, as `char::is_whitespace` defines it.
pub open spec fn is_ws(c: char) -> bool {
    ||| ('\u{9}' <= c && c <= '\u{d}')
    ||| c == ' '
    ||| c == '\u{85}'
    ||| c == '\u{a0}'
    ||| c == '\u{1680}'
    ||| ('\u{2000}' <= c && c <= '\u{200a}')
    ||| c == '\u{2028}'
    ||| c == '\u{2029}'
    ||| c == '\u{202f}'
    ||| c == '\u{205f}'
    ||| c == '\u{3000}'
}

pub fn is_whitespace(c: char) -> (b: bool)
    ensures
        b == is_ws(c),
{
    ('\u{9}' <= c && c <= '\u{d}') || c == ' ' || c == '\u{85}' || c == '\u{a0}' || c
        == '\u{1680}' || ('\u{2000}' <= c && c <= '\u{200a}') || c == '\u{2028}' || c
        == '\u{2029}' || c == '\u{202f}' || c == '\u{205f}' || c == '\u{3000}'
}

pub open spec fn trim_start(s: Seq<char>) -> Seq<char>
    decreases s.len(),
{
    if s.len() > 0 && is_ws(s[0]) {
        trim_start(s.drop_first())
    } else {
        s
    }
}

pub open spec fn trim_end(s: Seq<char>) -> Seq<char>
    decreases s.len(),
{
    if s.len() > 0 && is_ws(s.last()) {
        trim_end(s.drop_last())
    } else {
        s
    }
}

/// `str::trim`: leading and trailing whitespace removed.
pub open spec fn trim(s: Seq<char>) -> Seq<char> {
    trim_end(trim_start(s))
}

proof fn lemma_trim_start(s: Seq<char>, i: int)
    requires
        0 <= i <= s.len(),
        forall|k: int| 0 <= k < i ==> is_ws(#[trigger] s[k]),
        i == s.len() || !is_ws(s[i]),
    ensures
        trim_start(s) == s.skip(i),
    decreases i,
{
    if i > 0 {
        let t = s.drop_first();
        assert forall|k: int| 0 <= k < i - 1 implies is_ws(#[trigger] t[k]) by {
            assert(t[k] == s[k + 1]);
        }
        if i - 1 < t.len() {
            assert(t[i - 1] == s[i]);
        }
        lemma_trim_start(t, i - 1);
        assert(t.skip(i - 1) =~= s.skip(i));
        assert(is_ws(s[0]));
    } else {
        assert(s.skip(0) =~= s);
    }
}

proof fn lemma_trim_end(s: Seq<char>, j: int)
    requires
        0 <= j <= s.len(),
        forall|k: int| j <= k < s.len() ==> is_ws(#[trigger] s[k]),
        j == 0 || !is_ws(s[j - 1]),
    ensures
        trim_end(s) == s.take(j),
    decreases s.len() - j,
{
    if j < s.len() {
        let t = s.drop_last();
        assert forall|k: int| j <= k < t.len() implies is_ws(#[trigger] t[k]) by {
            assert(t[k] == s[k]);
        }
        if j > 0 {
            assert(t[j - 1] == s[j - 1]);
        }
        lemma_trim_end(t, j);
        assert(t.take(j) =~= s.take(j));
        assert(is_ws(s.last()));
    } else {
        assert(s.take(j) =~= s);
    }
}

/// The bounds `[i, j)` of `trim(s)` within `s`.
pub fn trim_bounds(s: &[char]) -> (r: (usize, usize))
    ensures
        r.0 <= r.1 <= s@.len(),
        trim(s@) == s@.subrange(r.0 as int, r.1 as int),
{
    let mut i: usize = 0;
    while i < s.len() && is_whitespace(s[i])
        invariant
            i <= s.len(),
            forall|k: int| 0 <= k < i ==> is_ws(#[trigger] s@[k]),
        decreases s.len() - i,
    {
        i += 1;
    }
    proof {
        lemma_trim_start(s@, i as int);
    }
    let ghost t = s@.skip(i as int);
    let mut j: usize = s.len();
    while j > i && is_whitespace(s[j - 1])
        invariant
            i <= j <= s.len(),
            forall|k: int| j <= k < s.len() ==> is_ws(#[trigger] s@[k]),
        decreases j,
    {
        j -= 1;
    }
    proof {
        assert forall|k: int| j - i <= k < t.len() implies is_ws(#[trigger] t[k]) by {
            assert(t[k] == s@[k + i]);
        }
        if j > i {
            assert(t[j - i - 1] == s@[j - 1]);
        }
        lemma_trim_end(t, j - i);
        assert(t.take(j - i) =~= s@.subrange(i as int, j as int));
    }
    (i, j)
}

/// `str::trim_matches(c)`: every leading and trailing `c` removed.
pub open spec fn trim_char(s: Seq<char>, c: char) -> Seq<char>
    decreases s.len(),
{
    if s.len() > 0 && s[0] == c {
        trim_char(s.drop_first(), c)
    } else if s.len() > 0 && s.last() == c {
        trim_char(s.drop_last(), c)
    } else {
        s
    }
}

proof fn lemma_trim_char(s: Seq<char>, c: char, i: int, j: int)
    requires
        0 <= i <= j <= s.len(),
        forall|k: int| 0 <= k < i ==> s[k] == c,
        forall|k: int| j <= k < s.len() ==> s[k] == c,
        i == j || (s[i] != c && s[j - 1] != c),
    ensures
        trim_char(s, c) == s.subrange(i, j),
    decreases s.len(),
{
    if i > 0 {
        let t = s.drop_first();
        assert forall|k: int| 0 <= k < i - 1 implies t[k] == c by {
            assert(t[k] == s[k + 1]);
        }
        assert forall|k: int| j - 1 <= k < t.len() implies t[k] == c by {
            assert(t[k] == s[k + 1]);
        }
        if i != j {
            assert(t[i - 1] == s[i] && t[j - 2] == s[j - 1]);
        }
        lemma_trim_char(t, c, i - 1, j - 1);
        assert(t.subrange(i - 1, j - 1) =~= s.subrange(i, j));
    } else if j < s.len() {
        let t = s.drop_last();
        if i == j {
            if s.len() > 0 && s[0] == c {
                let u = s.drop_first();
                assert forall|k: int| 0 <= k < u.len() implies u[k] == c by {
                    assert(u[k] == s[k + 1]);
                }
                lemma_trim_char(u, c, 0, 0);
                assert(u.subrange(0, 0) =~= s.subrange(i, j));
                return;
            }
        }
        assert(s[0] != c) by {
            if i == j {
            }
        }
        assert forall|k: int| j <= k < t.len() implies t[k] == c by {
            assert(t[k] == s[k]);
        }
        if i != j {
            assert(t[i] == s[i] && t[j - 1] == s[j - 1]);
        }
        lemma_trim_char(t, c, i, j);
        assert(t.subrange(i, j) =~= s.subrange(i, j));
    } else {
        assert(s.subrange(0, s.len() as int) =~= s);
        if s.len() > 0 {
            assert(s[0] != c);
        }
    }
}

/// `s.trim_matches(c)`, as characters.
pub fn trim_char_of(s: &[char], c: char) -> (r: Vec<char>)
    ensures
        r@ == trim_char(s@, c),
{
    let mut i: usize = 0;
    while i < s.len() && s[i] == c
        invariant
            i <= s.len(),
            forall|k: int| 0 <= k < i ==> s@[k] == c,
        decreases s.len() - i,
    {
        i += 1;
    }
    let mut j: usize = s.len();
    while j > i && s[j - 1] == c
        invariant
            i <= j <= s.len(),
            forall|k: int| j <= k < s.len() ==> s@[k] == c,
        decreases j,
    {
        j -= 1;
    }
    proof {
        lemma_trim_char(s@, c, i as int, j as int);
    }
    slice_chars(s, i, j)
}

/// `s.split_whitespace().next()`: the first run of non-whitespace.
pub open spec fn first_word(s: Seq<char>) -> Option<Seq<char>> {
    let t = trim_start(s);
    if t.len() == 0 {
        None
    } else {
        Some(t.take(word_len(t) as int))
    }
}

/// The number of leading non-whitespace characters.
pub open spec fn word_len(s: Seq<char>) -> nat
    decreases s.len(),
{
    if s.len() == 0 || is_ws(s[0]) {
        0
    } else {
        1 + word_len(s.drop_first())
    }
}

proof fn lemma_word_len(s: Seq<char>, k: int)
    requires
        0 <= k <= s.len(),
        forall|m: int| 0 <= m < k ==> !is_ws(s[m]),
        k == s.len() || is_ws(s[k]),
    ensures
        word_len(s) == k,
    decreases k,
{
    if k > 0 {
        let t = s.drop_first();
        assert forall|m: int| 0 <= m < k - 1 implies !is_ws(t[m]) by {
            assert(t[m] == s[m + 1]);
        }
        if k < s.len() {
            assert(t[k - 1] == s[k]);
        }
        lemma_word_len(t, k - 1);
    }
}

/// The first whitespace-separated word of `s`.
pub fn first_word_of(s: &[char]) -> (r: Option<Vec<char>>)
    ensures
        r matches Some(w) ==> first_word(s@) == Some(w@),
        r is None ==> first_word(s@) is None,
{
    let mut i: usize = 0;
    while i < s.len() && is_whitespace(s[i])
        invariant
            i <= s.len(),
            forall|k: int| 0 <= k < i ==> is_ws(#[trigger] s@[k]),
        decreases s.len() - i,
    {
        i += 1;
    }
    proof {
        lemma_trim_start(s@, i as int);
    }
    if i == s.len() {
        return None;
    }
    let mut j: usize = i;
    while j < s.len() && !is_whitespace(s[j])
        invariant
            i <= j <= s.len(),
            forall|k: int| i <= k < j ==> !is_ws(s@[k]),
        decreases s.len() - j,
    {
        j += 1;
    }
    proof {
        let t = s@.skip(i as int);
        assert forall|m: int| 0 <= m < j - i implies !is_ws(t[m]) by {
            assert(t[m] == s@[m + i]);
        }
        if j < s.len() {
            assert(t[j - i] == s@[j as int]);
        }
        lemma_word_len(t, j - i);
        assert(t.take(j - i) =~= s@.subrange(i as int, j as int));
    }
    Some(slice_chars(s, i, j))
}

/// `s.split_whitespace().nth(1)`: the second run of non-whitespace.
pub open spec fn second_word(s: Seq<char>) -> Option<Seq<char>> {
    let t = trim_start(s);
    if t.len() == 0 {
        None
    } else {
        first_word(t.skip(word_len(t) as int))
    }
}

/// The second whitespace-separated word of `s`.
pub fn second_word_of(s: &[char]) -> (r: Option<Vec<char>>)
    ensures
        r matches Some(w) ==> second_word(s@) == Some(w@),
        r is None ==> second_word(s@) is None,
{
    let mut i: usize = 0;
    while i < s.len() && is_whitespace(s[i])
        invariant
            i <= s.len(),
            forall|k: int| 0 <= k < i ==> is_ws(#[trigger] s@[k]),
        decreases s.len() - i,
    {
        i += 1;
    }
    proof {
        lemma_trim_start(s@, i as int);
    }
    if i == s.len() {
        return None;
    }
    let mut j: usize = i;
    while j < s.len() && !is_whitespace(s[j])
        invariant
            i <= j <= s.len(),
            forall|k: int| i <= k < j ==> !is_ws(s@[k]),
        decreases s.len() - j,
    {
        j += 1;
    }
    let rest = slice_chars(s, j, s.len());
    proof {
        let t = s@.skip(i as int);
        assert forall|m: int| 0 <= m < j - i implies !is_ws(t[m]) by {
            assert(t[m] == s@[m + i]);
        }
        if j < s.len() {
            assert(t[j - i] == s@[j as int]);
        }
        lemma_word_len(t, j - i);
        assert(t.skip(j - i) =~= rest@);
    }
    first_word_of(rest.as_slice())
}

/// `s.trim()` as a new `String`.
pub fn trim_string(s: &str) -> (r: String)
    ensures
        r@ == trim(s@),
{
    let cs = chars_of(s);
    let t = trimmed(cs.as_slice());
    string_from(t.as_slice())
}

/// Does `s.trim()` equal `pat`?
pub fn trimmed_is(s: &str, pat: &str) -> (r: bool)
    ensures
        r == (trim(s@) == pat@),
{
    let t = trim_string(s);
    str_eq(t.as_str(), pat)
}

/// `s.strip_prefix(pat)`.
pub open spec fn strip_prefix(s: Seq<char>, pat: Seq<char>) -> Option<Seq<char>> {
    if starts_with(s, pat) {
        Some(s.skip(pat.len() as int))
    } else {
        None
    }
}

/// `s.trim()`, as characters.
pub fn trimmed(s: &[char]) -> (r: Vec<char>)
    ensures
        r@ == trim(s@),
{
    let (i, j) = trim_bounds(s);
    slice_chars(s, i, j)
}

/// The characters `s[from..to]`.
pub fn slice_chars(s: &[char], from: usize, to: usize) -> (r: Vec<char>)
    requires
        from <= to <= s@.len(),
    ensures
        r@ == s@.subrange(from as int, to as int),
{
    let mut r: Vec<char> = Vec::new();
    let mut k: usize = from;
    while k < to
        invariant
            from <= k <= to <= s@.len(),
            r@ == s@.subrange(from as int, k as int),
        decreases to - k,
    {
        r.push(s[k]);
        assert(s@.subrange(from as int, k as int).push(s@[k as int]) =~= s@.subrange(
            from as int,
            k + 1,
        ));
        k += 1;
    }
    r
}

// ---------------------------------------------------------------------------
// Searching
// ---------------------------------------------------------------------------

/// `pat` occurs in `s` starting at position `i`.
pub open spec fn occurs_at(s: Seq<char>, pat: Seq<char>, i: int) -> bool {
    0 <= i && i + pat.len() <= s.len() && s.subrange(i, i + pat.len()) == pat
}

/// `str::contains` with a string pattern.
pub open spec fn contains(s: Seq<char>, pat: Seq<char>) -> bool {
    exists|i: int| occurs_at(s, pat, i)
}

/// `str::starts_with` with a string pattern.
pub open spec fn starts_with(s: Seq<char>, pat: Seq<char>) -> bool {
    occurs_at(s, pat, 0)
}

/// `str::find` with a string pattern: the first position where `pat` occurs.
pub open spec fn find(s: Seq<char>, pat: Seq<char>) -> Option<int> {
    if contains(s, pat) {
        Some(choose|i: int| occurs_at(s, pat, i) && forall|j: int| 0 <= j < i ==> !occurs_at(s, pat, j))
    } else {
        None
    }
}

/// The first occurrence of `pat` at a position `>= from` is at `i`.
pub open spec fn first_from(s: Seq<char>, pat: Seq<char>, from: int, i: int) -> bool {
    &&& from <= i
    &&& occurs_at(s, pat, i)
    &&& forall|j: int| from <= j < i ==> !occurs_at(s, pat, j)
}

proof fn lemma_find_is_first(s: Seq<char>, pat: Seq<char>, i: int)
    requires
        first_from(s, pat, 0, i),
    ensures
        find(s, pat) == Some(i),
{
    assert(contains(s, pat));
    let c = choose|k: int| occurs_at(s, pat, k) && forall|j: int| 0 <= j < k ==> !occurs_at(s, pat, j);
    assert(occurs_at(s, pat, i) && forall|j: int| 0 <= j < i ==> !occurs_at(s, pat, j));
    if c < i {
        assert(!occurs_at(s, pat, c));
    }
    if c > i {
        assert(!occurs_at(s, pat, i));
    }
}

proof fn lemma_min_occurrence(s: Seq<char>, pat: Seq<char>, w: int)
    requires
        occurs_at(s, pat, w),
    ensures
        exists|i: int| occurs_at(s, pat, i) && forall|j: int| 0 <= j < i ==> !occurs_at(s, pat, j),
    decreases w,
{
    if exists|j: int| 0 <= j < w && occurs_at(s, pat, j) {
        let j = choose|j: int| 0 <= j < w && occurs_at(s, pat, j);
        lemma_min_occurrence(s, pat, j);
    }
}

/// What `find` gives is the first occurrence.
pub proof fn lemma_find(s: Seq<char>, pat: Seq<char>)
    ensures
        find(s, pat) matches Some(i) ==> first_from(s, pat, 0, i),
        find(s, pat) is None ==> forall|j: int| !occurs_at(s, pat, j),
{
    if contains(s, pat) {
        let w = choose|i: int| occurs_at(s, pat, i);
        lemma_min_occurrence(s, pat, w);
    }
}

/// Does `pat` occur in `s` at position `i`?
pub fn matches_at(s: &[char], pat: &[char], i: usize) -> (b: bool)
    ensures
        b == occurs_at(s@, pat@, i as int),
{
    if i > s.len() || pat.len() > s.len() - i {
        return false;
    }
    let mut k: usize = 0;
    while k < pat.len()
        invariant
            i + pat.len() <= s.len(),
            k <= pat.len(),
            forall|m: int| 0 <= m < k ==> s@[i + m] == pat@[m],
        decreases pat.len() - k,
    {
        if s[i + k] != pat[k] {
            assert(s@.subrange(i as int, i + pat.len())[k as int] != pat@[k as int]);
            return false;
        }
        k += 1;
    }
    assert(s@.subrange(i as int, i + pat.len()) =~= pat@);
    true
}

/// The first position `>= from` where `pat` occurs.
pub fn find_from(s: &[char], pat: &[char], from: usize) -> (r: Option<usize>)
    ensures
        r matches Some(i) ==> first_from(s@, pat@, from as int, i as int),
        r is None ==> forall|j: int| from <= j ==> !occurs_at(s@, pat@, j),
{
    if from > s.len() {
        return None;
    }
    let mut i: usize = from;
    while i < s.len()
        invariant
            from <= i <= s.len(),
            forall|j: int| from <= j < i ==> !occurs_at(s@, pat@, j),
        decreases s.len() - i,
    {
        if matches_at(s, pat, i) {
            return Some(i);
        }
        i += 1;
    }
    if matches_at(s, pat, i) {
        return Some(i);
    }
    None
}

/// `s.find(pat)`.
pub fn find_chars(s: &[char], pat: &[char]) -> (r: Option<usize>)
    ensures
        r matches Some(i) ==> find(s@, pat@) == Some(i as int),
        r is None ==> find(s@, pat@) is None,
{
    match find_from(s, pat, 0) {
        Some(i) => {
            proof {
                lemma_find_is_first(s@, pat@, i as int);
            }
            Some(i)
        },
        None => None,
    }
}

/// `s.contains(pat)`.
pub fn contains_chars(s: &[char], pat: &[char]) -> (b: bool)
    ensures
        b == contains(s@, pat@),
{
    match find_from(s, pat, 0) {
        Some(i) => true,
        None => false,
    }
}

/// `s.starts_with(pat)`.
pub fn starts_with_chars(s: &[char], pat: &[char]) -> (b: bool)
    ensures
        b == starts_with(s@, pat@),
{
    matches_at(s, pat, 0)
}

/// `str::ends_with` with a string pattern.
pub open spec fn ends_with(s: Seq<char>, pat: Seq<char>) -> bool {
    pat.len() <= s.len() && occurs_at(s, pat, s.len() - pat.len())
}

/// Does the string end with the given pattern?
pub fn str_ends_with(s: &str, pat: &str) -> (r: bool)
    ensures
        r == ends_with(s@, pat@),
{
    let x = chars_of(s);
    let y = chars_of(pat);
    if y.len() > x.len() {
        return false;
    }
    matches_at(x.as_slice(), y.as_slice(), x.len() - y.len())
}

/// Equality of two character sequences.
pub fn chars_eq(a: &[char], b: &[char]) -> (r: bool)
    ensures
        r == (a@ == b@),
{
    if a.len() != b.len() {
        return false;
    }
    let r = matches_at(a, b, 0);
    proof {
        assert(a@.subrange(0, b@.len() as int) =~= a@);
    }
    r
}

/// Equality of two string slices.
pub fn str_eq(a: &str, b: &str) -> (r: bool)
    ensures
        r == (a@ == b@),
{
    let x = chars_of(a);
    let y = chars_of(b);
    chars_eq(x.as_slice(), y.as_slice())
}

/// Does the string contain the given pattern?
pub fn str_contains(s: &str, pat: &str) -> (r: bool)
    ensures
        r == contains(s@, pat@),
{
    let x = chars_of(s);
    let y = chars_of(pat);
    contains_chars(x.as_slice(), y.as_slice())
}

/// Does the string start with the given pattern?
pub fn str_starts_with(s: &str, pat: &str) -> (r: bool)
    ensures
        r == starts_with(s@, pat@),
{
    let x = chars_of(s);
    let y = chars_of(pat);
    starts_with_chars(x.as_slice(), y.as_slice())
}

// ---------------------------------------------------------------------------
// Splitting
// ---------------------------------------------------------------------------

/// Position of the first `c` in `s`, or `s.len()` when there is none.
pub open spec fn index_of(s: Seq<char>, c: char) -> nat
    decreases s.len(),
{
    if s.len() == 0 {
        0
    } else if s[0] == c {
        0
    } else {
        1 + index_of(s.drop_first(), c)
    }
}

proof fn lemma_index_of(s: Seq<char>, c: char, k: int)
    requires
        0 <= k <= s.len(),
        forall|m: int| 0 <= m < k ==> s[m] != c,
        k == s.len() || s[k] == c,
    ensures
        index_of(s, c) == k,
    decreases k,
{
    if k > 0 {
        let t = s.drop_first();
        assert forall|m: int| 0 <= m < k - 1 implies t[m] != c by {
            assert(t[m] == s[m + 1]);
        }
        if k < s.len() {
            assert(t[k - 1] == s[k]);
        }
        lemma_index_of(t, c, k - 1);
        assert(s[0] != c);
    }
}

/// Position of the first `c` at or after `from`, or `s.len()`.
pub fn index_of_from(s: &[char], c: char, from: usize) -> (r: usize)
    requires
        from <= s@.len(),
    ensures
        from <= r <= s@.len(),
        index_of(s@.skip(from as int), c) == r - from,
{
    let mut k: usize = from;
    while k < s.len() && s[k] != c
        invariant
            from <= k <= s.len(),
            forall|m: int| from <= m < k ==> s@[m] != c,
        decreases s.len() - k,
    {
        k += 1;
    }
    proof {
        let t = s@.skip(from as int);
        assert forall|m: int| 0 <= m < k - from implies t[m] != c by {
            assert(t[m] == s@[m + from]);
        }
        if k < s.len() {
            assert(t[k - from] == s@[k as int]);
        }
        lemma_index_of(t, c, k - from);
    }
    k
}

/// `s.split(c).next()`: everything before the first `c`.
pub open spec fn before_char(s: Seq<char>, c: char) -> Seq<char> {
    s.take(index_of(s, c) as int)
}

/// `s.split(c).nth(1)`: the piece between the first and the second `c`.
pub open spec fn second_piece(s: Seq<char>, c: char) -> Option<Seq<char>> {
    let i = index_of(s, c);
    if i < s.len() {
        let rest = s.skip(i + 1 as int);
        Some(rest.take(index_of(rest, c) as int))
    } else {
        None
    }
}

proof fn lemma_index_of_le(s: Seq<char>, c: char)
    ensures
        index_of(s, c) <= s.len(),
    decreases s.len(),
{
    if s.len() > 0 && s[0] != c {
        lemma_index_of_le(s.drop_first(), c);
    }
}

pub fn before_char_of(s: &[char], c: char) -> (r: Vec<char>)
    ensures
        r@ == before_char(s@, c),
{
    let i = index_of_from(s, c, 0);
    assert(s@.skip(0) =~= s@);
    slice_chars(s, 0, i)
}

pub fn second_piece_of(s: &[char], c: char) -> (r: Option<Vec<char>>)
    ensures
        r matches Some(v) ==> second_piece(s@, c) == Some(v@),
        r is None ==> second_piece(s@, c) is None,
{
    let i = index_of_from(s, c, 0);
    assert(s@.skip(0) =~= s@);
    if i == s.len() {
        return None;
    }
    let j = index_of_from(s, c, i + 1);
    assert(s@.skip(i + 1).take(j - (i + 1)) =~= s@.subrange(i + 1, j as int));
    Some(slice_chars(s, i + 1, j))
}

/// A line as `str::lines` yields it: a `\r` before the `\n` is dropped.
pub open spec fn strip_cr(l: Seq<char>) -> Seq<char> {
    if l.len() > 0 && l.last() == '\r' {
        l.drop_last()
    } else {
        l
    }
}

/// `str::lines`: pieces split at `\n`, each without a `\r` that ends it
/// before the `\n`; a final line ending adds no empty line.
pub open spec fn lines(s: Seq<char>) -> Seq<Seq<char>>
    decreases s.len(),
{
    if s.len() == 0 {
        seq![]
    } else {
        let i = index_of(s, '\n');
        if i < s.len() {
            seq![strip_cr(s.take(i as int))] + lines(s.skip(i + 1 as int))
        } else {
            seq![s]
        }
    }
}

/// The lines of `s`, as `str::lines` splits them.
pub fn lines_of(s: &[char]) -> (r: Vec<Vec<char>>)
    ensures
        r@.len() == lines(s@).len(),
        forall|i: int| 0 <= i < r@.len() ==> (#[trigger] r@[i])@ == lines(s@)[i],
{
    let mut r: Vec<Vec<char>> = Vec::new();
    let ghost mut done: Seq<Seq<char>> = seq![];
    let mut start: usize = 0;
    assert(s@.skip(0) =~= s@);
    while start < s.len()
        invariant
            start <= s.len(),
            r@.len() == done.len(),
            forall|i: int| 0 <= i < r@.len() ==> (#[trigger] r@[i])@ == done[i],
            lines(s@) == done + lines(s@.skip(start as int)),
        decreases s.len() - start,
    {
        let k = index_of_from(s, '\n', start);
        let ghost t = s@.skip(start as int);
        let mut line = slice_chars(s, start, k);
        assert(t.take(k - start) =~= line@);
        if line.len() > 0 && line[line.len() - 1] == '\r' {
            line.pop();
        }
        assert(line@ == strip_cr(t.take(k - start)));
        if k < s.len() {
            assert(t.skip(k - start + 1) =~= s@.skip(k + 1));
            proof {
                done = done.push(line@);
            }
            r.push(line);
            start = k + 1;
        } else {
            assert(t.take(k - start) =~= t);
            proof {
                done = done.push(t);
            }
            r.push(slice_chars(s, start, k));
            assert(s@.subrange(start as int, k as int) =~= t);
            start = k;
            assert(s@.skip(start as int) =~= seq![]);
        }
        assert(lines(s@) =~= done + lines(s@.skip(start as int)));
    }
    assert(s@.skip(start as int) =~= seq![]);
    assert(done + lines(s@.skip(start as int)) =~= done);
    r
}

// ---------------------------------------------------------------------------
// Replacing
// ---------------------------------------------------------------------------

/// `str::replace(from, to)` for a non-empty `from`: occurrences taken from
/// left to right, without overlap.
pub open spec fn replace(s: Seq<char>, from: Seq<char>, to: Seq<char>) -> Seq<char>
    decreases s.len(),
{
    if s.len() == 0 || from.len() == 0 {
        s
    } else if starts_with(s, from) {
        to + replace(s.skip(from.len() as int), from, to)
    } else {
        seq![s[0]] + replace(s.drop_first(), from, to)
    }
}

/// `s.replace(from, to)` for a non-empty `from`.
pub fn replace_chars(s: &[char], from: &[char], to: &[char]) -> (r: Vec<char>)
    requires
        from@.len() > 0,
    ensures
        r@ == replace(s@, from@, to@),
{
    let mut out: Vec<char> = Vec::new();
    let mut i: usize = 0;
    assert(s@.skip(0) =~= s@);
    while i < s.len()
        invariant
            i <= s.len(),
            from@.len() > 0,
            replace(s@, from@, to@) == out@ + replace(s@.skip(i as int), from@, to@),
        decreases s.len() - i,
    {
        let ghost t = s@.skip(i as int);
        if matches_at(s, from, i) {
            assert(t.subrange(0, from@.len() as int) =~= s@.subrange(i as int, i + from@.len()));
            assert(t.skip(from@.len() as int) =~= s@.skip(i + from@.len()));
            let mut k: usize = 0;
            let ghost out0 = out@;
            while k < to.len()
                invariant
                    k <= to.len(),
                    out@ == out0 + to@.take(k as int),
                decreases to.len() - k,
            {
                out.push(to[k]);
                assert(to@.take(k as int).push(to@[k as int]) =~= to@.take(k + 1));
                k += 1;
            }
            assert(to@.take(to.len() as int) =~= to@);
            assert(out@ + replace(s@.skip(i + from@.len()), from@, to@) =~= out0 + replace(t, from@, to@));
            i = i + from.len();
        } else {
            assert(!starts_with(t, from@)) by {
                if t.len() >= from@.len() {
                    assert(t.subrange(0, from@.len() as int) =~= s@.subrange(i as int, i + from@.len()));
                }
            }
            assert(t.drop_first() =~= s@.skip(i + 1));
            out.push(s[i]);
            i += 1;
        }
    }
    assert(s@.skip(i as int) =~= seq![]);
    assert(out@ + seq![] =~= out@);
    out
}

// ---------------------------------------------------------------------------
// Lower case
// ---------------------------------------------------------------------------

/// What `str::to_lowercase` returns (Unicode lower-case mapping).
pub uninterp spec fn lowercase(s: Seq<char>) -> Seq<char>;

/// `str::to_lowercase`, which maps each character by Unicode's lower-case
/// mapping. Claimed: the result is `lowercase` of the argument, a function of
/// the argument alone.
#[verifier::external_body]
pub(crate) fn to_lowercase(s: &str) -> (r: String)
    ensures
        r@ == lowercase(s@),
{
    s.to_lowercase()
}

} // verus!
