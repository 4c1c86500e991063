//! Single-instance checks: whether another process runs the same program.

use vstd::prelude::*;
use vstd::utf8::{decode_utf8, encode_utf8, encode_utf8_decode_utf8, encode_utf8_valid_utf8, is_char_boundary};
use vstd::string::StringSliceAdditionalSpecFns;
use crate::text::{chars_of, parse_u32, parse_unsigned, str_eq, trim, trim_string};

verus! {

/// The last character boundary of `bytes` at or below `i` (0 at least).
pub open spec fn last_boundary(bytes: Seq<u8>, i: int) -> int
    decreases i,
{
    if i <= 0 {
        0
    } else if is_char_boundary(bytes, i) {
        i
    } else {
        last_boundary(bytes, i - 1)
    }
}

/// The name a process of the program shows in `/proc/<pid>/comm`, where
/// Linux keeps 15 bytes of it: the name when it fits; else its first 15
/// bytes, or, where the 15th byte falls inside a character, the whole
/// characters before it.
pub open spec fn kept_name(binary: Seq<char>) -> Seq<char> {
    let b = encode_utf8(binary);
    if b.len() > 15 {
        decode_utf8(b.subrange(0, last_boundary(b, 15)))
    } else {
        binary
    }
}

/// Whether, among the entries of `/proc` (pairs of entry name and the
/// text of its `comm` file), a process other than `my_pid` runs the
/// program: its entry name is a number and its trimmed `comm` is the
/// program's name, or that name as Linux keeps it.
pub open spec fn other_instance(procs: Seq<(Seq<char>, Seq<char>)>, my_pid: u32, binary: Seq<char>) -> bool {
    exists|i: int| 0 <= i < procs.len() && #[trigger] runs_other(procs[i], my_pid, binary)
}

/// The entry is a process other than `my_pid` that runs the program.
pub open spec fn runs_other(entry: (Seq<char>, Seq<char>), my_pid: u32, binary: Seq<char>) -> bool {
    match parse_unsigned(entry.0, u32::MAX as nat) {
        Some(pid) => pid != my_pid && (trim(entry.1) == binary || trim(entry.1) == kept_name(binary)),
        None => false,
    }
}

proof fn lemma_last_boundary(bytes: Seq<u8>, i: int)
    requires
        0 <= i,
    ensures
        0 <= last_boundary(bytes, i) <= i,
        last_boundary(bytes, i) == 0 || is_char_boundary(bytes, last_boundary(bytes, i)),
    decreases i,
{
    if i > 0 && !is_char_boundary(bytes, i) {
        lemma_last_boundary(bytes, i - 1);
    }
}

/// The program's name as Linux keeps it.
fn kept_name_of(binary: &str) -> (r: &str)
    requires
        encode_utf8(binary@).len() <= usize::MAX,
    ensures
        r@ == kept_name(binary@),
{
    proof {
        assert(binary.spec_bytes() == encode_utf8(binary@));
        encode_utf8_valid_utf8(binary@);
    }
    if binary.len() <= 15 {
        return binary;
    }
    let ghost b = encode_utf8(binary@);
    let mut k: usize = 15;
    while k > 0 && !binary.is_char_boundary(k)
        invariant
            k <= 15,
            b == binary.spec_bytes(),
            last_boundary(b, 15) == last_boundary(b, k as int),
        decreases k,
    {
        k = k - 1;
    }
    proof {
        lemma_last_boundary(b, k as int);
        assert(last_boundary(b, k as int) == k);
        assert(is_char_boundary(b, 0));
    }
    let (a, _) = binary.split_at(k);
    proof {
        encode_utf8_decode_utf8(a@);
        assert(a.spec_bytes() == encode_utf8(a@));
        assert(encode_utf8(a@) =~= b.subrange(0, k as int));
    }
    a
}

/// Whether another instance of the program runs already.
pub fn is_already_running(procs: &Vec<(String, String)>, my_pid: u32, binary: &str) -> (r: bool)
    requires
        encode_utf8(binary@).len() <= usize::MAX,
    ensures
        r == other_instance(procs@.map_values(|p: (String, String)| (p.0@, p.1@)), my_pid, binary@),
{
    let ghost pv = procs@.map_values(|p: (String, String)| (p.0@, p.1@));
    let kept = kept_name_of(binary);
    let mut i: usize = 0;
    while i < procs.len()
        invariant
            i <= procs@.len(),
            kept@ == kept_name(binary@),
            pv == procs@.map_values(|p: (String, String)| (p.0@, p.1@)),
            forall|k: int| 0 <= k < i ==> !#[trigger] runs_other(pv[k], my_pid, binary@),
        decreases procs@.len() - i,
    {
        let name = chars_of(procs[i].0.as_str());
        assert(pv[i as int] == (procs@[i as int].0@, procs@[i as int].1@));
        match parse_u32(name.as_slice()) {
            Some(pid) => {
                let t = trim_string(procs[i].1.as_str());
                if pid != my_pid && (str_eq(t.as_str(), binary) || str_eq(t.as_str(), kept)) {
                    assert(runs_other(pv[i as int], my_pid, binary@));
                    return true;
                }
            },
            None => {},
        }
        i += 1;
    }
    false
}

} // verus!
