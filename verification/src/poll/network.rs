//! Network interfaces and their transfer rates.

use vstd::prelude::*;
use crate::text::{dec, push_dec, push_str, starts_with, str_starts_with};
use crate::units::{as_f64, fixed1, push_fixed1, u64_as_f64};

verus! {

/// One network interface and its counters.
#[derive(Debug, Clone)]
pub struct NetworkInfo {
    /// Interface name (e.g. "wlo1", "eth0").
    pub interface: String,
    /// Total bytes received.
    pub rx_bytes: u64,
    /// Total bytes transmitted.
    pub tx_bytes: u64,
    /// Bytes received since the last refresh.
    pub rx_rate: u64,
    /// Bytes transmitted since the last refresh.
    pub tx_rate: u64,
}

pub open spec fn kib() -> nat {
    1024
}

pub open spec fn mib() -> nat {
    1_048_576
}

pub open spec fn gib() -> nat {
    1_073_741_824
}

/// A rate in bytes per second as text: in the largest binary unit it
/// reaches, with one decimal, or in plain bytes below a kibibyte.
pub open spec fn rate_text(bytes: nat) -> Seq<char> {
    if bytes >= gib() {
        fixed1(as_f64(bytes), gib()) + " GB/s"@
    } else if bytes >= mib() {
        fixed1(as_f64(bytes), mib()) + " MB/s"@
    } else if bytes >= kib() {
        fixed1(as_f64(bytes), kib()) + " KB/s"@
    } else {
        dec(bytes) + " B/s"@
    }
}

/// Interfaces whose name starts with `lo` or `docker` are not reported.
pub open spec fn reported(name: Seq<char>) -> bool {
    !starts_with(name, "lo"@) && !starts_with(name, "docker"@)
}

/// Whether an interface of this name is reported.
pub fn is_reported_interface(name: &str) -> (r: bool)
    ensures
        r == reported(name@),
{
    !str_starts_with(name, "lo") && !str_starts_with(name, "docker")
}

impl NetworkInfo {
    /// The receive rate as text.
    pub fn rx_rate_str(&self) -> (r: String)
        ensures
            r@ == rate_text(self.rx_rate as nat),
    {
        Self::format_rate(self.rx_rate)
    }

    /// The transmit rate as text.
    pub fn tx_rate_str(&self) -> (r: String)
        ensures
            r@ == rate_text(self.tx_rate as nat),
    {
        Self::format_rate(self.tx_rate)
    }

    /// A rate in bytes per second as text.
    pub fn format_rate(bytes: u64) -> (r: String)
        ensures
            r@ == rate_text(bytes as nat),
    {
        let mut r = String::new();
        if bytes >= 1_073_741_824 {
            push_fixed1(&mut r, u64_as_f64(bytes), 1_073_741_824);
            push_str(&mut r, " GB/s");
        } else if bytes >= 1_048_576 {
            push_fixed1(&mut r, u64_as_f64(bytes), 1_048_576);
            push_str(&mut r, " MB/s");
        } else if bytes >= 1024 {
            push_fixed1(&mut r, u64_as_f64(bytes), 1024);
            push_str(&mut r, " KB/s");
        } else {
            push_dec(&mut r, bytes);
            push_str(&mut r, " B/s");
        }
        assert(r@ =~= rate_text(bytes as nat));
        r
    }
}

} // verus!
