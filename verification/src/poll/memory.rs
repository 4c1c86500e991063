//! Memory sizes as text.

use vstd::prelude::*;
use crate::text::push_str;
use crate::units::{as_f64, fixed0, fixed1, push_fixed0, push_fixed1, u64_as_f64};
use crate::poll::network::{gib, mib};

verus! {

/// A memory size as text: gibibytes with one decimal from one gibibyte on,
/// else whole mebibytes.
pub open spec fn memory_text(bytes: nat) -> Seq<char> {
    if bytes >= gib() {
        fixed1(as_f64(bytes), gib()) + " GB"@
    } else {
        fixed0(as_f64(bytes), mib()) + " MB"@
    }
}

/// "used / total GB", both in gibibytes with one decimal.
pub open spec fn summary_text(used: nat, total: nat) -> Seq<char> {
    fixed1(as_f64(used), gib()) + " / "@ + fixed1(as_f64(total), gib()) + " GB"@
}

/// A memory size as text.
pub fn format_bytes(bytes: u64) -> (r: String)
    ensures
        r@ == memory_text(bytes as nat),
{
    let mut r = String::new();
    if bytes >= 1_073_741_824 {
        push_fixed1(&mut r, u64_as_f64(bytes), 1_073_741_824);
        push_str(&mut r, " GB");
    } else {
        push_fixed0(&mut r, u64_as_f64(bytes), 1_048_576);
        push_str(&mut r, " MB");
    }
    r
}

/// Used and total memory, as "12.4 / 16.0 GB".
pub fn summary_str(used: u64, total: u64) -> (r: String)
    ensures
        r@ == summary_text(used as nat, total as nat),
{
    let mut r = String::new();
    push_fixed1(&mut r, u64_as_f64(used), 1_073_741_824);
    push_str(&mut r, " / ");
    push_fixed1(&mut r, u64_as_f64(total), 1_073_741_824);
    push_str(&mut r, " GB");
    assert(r@ =~= summary_text(used as nat, total as nat));
    r
}

} // verus!
