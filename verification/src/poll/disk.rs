//! Disk sizes as text, and which disk is the root one.

use vstd::prelude::*;
use crate::text::{push_str, str_eq};
use crate::units::{as_f64, fixed0, fixed1, push_fixed0, push_fixed1, u64_as_f64};
use crate::poll::network::{gib, mib};

verus! {

pub open spec fn tib() -> nat {
    1_099_511_627_776
}

/// A disk size as text: tebibytes or gibibytes with one decimal, else
/// whole mebibytes.
pub open spec fn disk_text(bytes: nat) -> Seq<char> {
    if bytes >= tib() {
        fixed1(as_f64(bytes), tib()) + " TB"@
    } else if bytes >= gib() {
        fixed1(as_f64(bytes), gib()) + " GB"@
    } else {
        fixed0(as_f64(bytes), mib()) + " MB"@
    }
}

/// A disk size as text.
pub fn format_bytes(bytes: u64) -> (r: String)
    ensures
        r@ == disk_text(bytes as nat),
{
    let mut r = String::new();
    if bytes >= 1_099_511_627_776 {
        push_fixed1(&mut r, u64_as_f64(bytes), 1_099_511_627_776);
        push_str(&mut r, " TB");
    } else if bytes >= 1_073_741_824 {
        push_fixed1(&mut r, u64_as_f64(bytes), 1_073_741_824);
        push_str(&mut r, " GB");
    } else {
        push_fixed0(&mut r, u64_as_f64(bytes), 1_048_576);
        push_str(&mut r, " MB");
    }
    r
}

/// The index of the first disk mounted at `/`.
pub fn root_index(mounts: &Vec<String>) -> (r: Option<usize>)
    ensures
        r matches Some(i) ==> i < mounts@.len() && mounts@[i as int]@ == "/"@ && forall|j: int|
            0 <= j < i ==> mounts@[j]@ != "/"@,
        r is None ==> forall|j: int| 0 <= j < mounts@.len() ==> mounts@[j]@ != "/"@,
{
    let mut i: usize = 0;
    while i < mounts.len()
        invariant
            i <= mounts@.len(),
            forall|j: int| 0 <= j < i ==> mounts@[j]@ != "/"@,
        decreases mounts@.len() - i,
    {
        if str_eq(mounts[i].as_str(), "/") {
            return Some(i);
        }
        i += 1;
    }
    None
}

} // verus!
