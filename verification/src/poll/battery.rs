//! Battery state from the power-supply files, and how it is shown.

use vstd::prelude::*;
use crate::text::{chars_of, dec, lowercase, parse_u64, parse_u8, parse_unsigned, push_dec, push_str, str_eq, string_from, to_lowercase, trim, trimmed};

verus! {

/// Charging status.
#[derive(Debug, Clone, Copy, PartialEq, Eq, Structural)]
pub enum BatteryStatus {
    Charging,
    Discharging,
    Full,
    NotCharging,
    Unknown,
}

/// The status a lower-cased status text names.
pub open spec fn status_named(s: Seq<char>) -> BatteryStatus {
    if s == "charging"@ {
        BatteryStatus::Charging
    } else if s == "discharging"@ {
        BatteryStatus::Discharging
    } else if s == "full"@ {
        BatteryStatus::Full
    } else if s == "not charging"@ {
        BatteryStatus::NotCharging
    } else {
        BatteryStatus::Unknown
    }
}

/// The status a lower-cased status text names.
pub fn status_from_lowercase(s: &str) -> (r: BatteryStatus)
    ensures
        r == status_named(s@),
{
    if str_eq(s, "charging") {
        BatteryStatus::Charging
    } else if str_eq(s, "discharging") {
        BatteryStatus::Discharging
    } else if str_eq(s, "full") {
        BatteryStatus::Full
    } else if str_eq(s, "not charging") {
        BatteryStatus::NotCharging
    } else {
        BatteryStatus::Unknown
    }
}

/// The status the `status` file's text gives: trimmed, lower-cased and
/// looked up.
pub fn parse_status(text: &str) -> (r: BatteryStatus)
    ensures
        r == status_named(lowercase(trim(text@))),
{
    let cs = chars_of(text);
    let t = trimmed(cs.as_slice());
    let s = string_from(t.as_slice());
    let lower = to_lowercase(s.as_str());
    status_from_lowercase(lower.as_str())
}

/// The charge percentage the `capacity` file's text gives, if it holds a
/// number that fits in a byte.
pub fn parse_capacity(text: &str) -> (r: Option<u8>)
    ensures
        r matches Some(v) ==> parse_unsigned(trim(text@), 255) == Some(v as nat),
        r is None ==> parse_unsigned(trim(text@), 255) is None,
{
    let cs = chars_of(text);
    let t = trimmed(cs.as_slice());
    parse_u8(t.as_slice())
}

/// The number an energy or power file's text gives.
pub fn parse_reading(text: &str) -> (r: Option<u64>)
    ensures
        r matches Some(v) ==> parse_unsigned(trim(text@), u64::MAX as nat) == Some(v as nat),
        r is None ==> parse_unsigned(trim(text@), u64::MAX as nat) is None,
{
    let cs = chars_of(text);
    let t = trimmed(cs.as_slice());
    parse_u64(t.as_slice())
}

/// `a - b`, or 0 when `b` is larger.
pub open spec fn saturating_sub(a: nat, b: nat) -> nat {
    if a >= b {
        (a - b) as nat
    } else {
        0
    }
}

/// Minutes left, from the energy now, the power drawn and (when charging)
/// the full energy: to empty when discharging, to full when charging; none
/// at zero power or in another state.
pub open spec fn minutes_left(status: BatteryStatus, energy_now: nat, power_now: nat, energy_full: Option<nat>) -> Option<nat> {
    if power_now == 0 {
        None
    } else {
        match status {
            BatteryStatus::Discharging => Some(energy_now * 60 / power_now),
            BatteryStatus::Charging => match energy_full {
                Some(f) => Some(saturating_sub(f, energy_now) * 60 / power_now),
                None => None,
            },
            _ => None,
        }
    }
}

/// Minutes left on the battery. The full energy is read only when
/// charging; pass what was read then.
pub fn minutes_remaining(status: BatteryStatus, energy_now: u64, power_now: u64, energy_full: Option<u64>) -> (r:
    Option<u64>)
    requires
        power_now != 0 && status == BatteryStatus::Discharging ==> energy_now * 60 <= u64::MAX,
        power_now != 0 && status == BatteryStatus::Charging && energy_full is Some ==> saturating_sub(
            energy_full->0 as nat,
            energy_now as nat,
        ) * 60 <= u64::MAX,
    ensures
        r matches Some(m) ==> minutes_left(status, energy_now as nat, power_now as nat, match energy_full {
            Some(f) => Some(f as nat),
            None => None,
        }) == Some(m as nat),
        r is None ==> minutes_left(status, energy_now as nat, power_now as nat, match energy_full {
            Some(f) => Some(f as nat),
            None => None,
        }) is None,
{
    if power_now == 0 {
        return None;
    }
    match status {
        BatteryStatus::Discharging => Some((energy_now * 60) / power_now),
        BatteryStatus::Charging => match energy_full {
            Some(full) => {
                let remaining = full.saturating_sub(energy_now);
                Some((remaining * 60) / power_now)
            },
            None => None,
        },
        _ => None,
    }
}

/// "85%".
pub open spec fn percentage_text(p: nat) -> Seq<char> {
    dec(p) + "%"@
}

/// The charge percentage as text.
pub fn percentage_str(percentage: u8) -> (r: String)
    ensures
        r@ == percentage_text(percentage as nat),
{
    let mut r = String::new();
    push_dec(&mut r, percentage as u64);
    push_str(&mut r, "%");
    r
}

/// "2h 30m", or "45m" under an hour.
pub open spec fn duration_text(mins: nat) -> Seq<char> {
    if mins / 60 > 0 {
        dec(mins / 60) + "h "@ + dec(mins % 60) + "m"@
    } else {
        dec(mins % 60) + "m"@
    }
}

/// The time left as text, if it is known.
pub fn time_str(time_remaining: Option<u64>) -> (r: Option<String>)
    ensures
        r matches Some(t) ==> time_remaining matches Some(m) && t@ == duration_text(m as nat),
        r is None ==> time_remaining is None,
{
    match time_remaining {
        Some(mins) => {
            let hours = mins / 60;
            let minutes = mins % 60;
            let mut r = String::new();
            if hours > 0 {
                push_dec(&mut r, hours);
                push_str(&mut r, "h ");
            }
            push_dec(&mut r, minutes);
            push_str(&mut r, "m");
            assert(r@ =~= duration_text(mins as nat));
            Some(r)
        },
        None => None,
    }
}

/// The icon for a battery state: charging levels in steps of 20, others
/// in steps of 20 with a separate step up to 10.
pub open spec fn icon_for(status: BatteryStatus, p: u8) -> Seq<char> {
    if status == BatteryStatus::Charging {
        if p <= 20 {
            "battery-level-20-charging-symbolic"@
        } else if p <= 40 {
            "battery-level-40-charging-symbolic"@
        } else if p <= 60 {
            "battery-level-60-charging-symbolic"@
        } else if p <= 80 {
            "battery-level-80-charging-symbolic"@
        } else {
            "battery-level-100-charging-symbolic"@
        }
    } else {
        if p <= 10 {
            "battery-level-10-symbolic"@
        } else if p <= 20 {
            "battery-level-20-symbolic"@
        } else if p <= 40 {
            "battery-level-40-symbolic"@
        } else if p <= 60 {
            "battery-level-60-symbolic"@
        } else if p <= 80 {
            "battery-level-80-symbolic"@
        } else {
            "battery-level-100-symbolic"@
        }
    }
}

/// The icon name for a battery state.
pub fn icon(status: BatteryStatus, percentage: u8) -> (r: &'static str)
    ensures
        r@ == icon_for(status, percentage),
{
    match status {
        BatteryStatus::Charging => {
            if percentage <= 20 {
                "battery-level-20-charging-symbolic"
            } else if percentage <= 40 {
                "battery-level-40-charging-symbolic"
            } else if percentage <= 60 {
                "battery-level-60-charging-symbolic"
            } else if percentage <= 80 {
                "battery-level-80-charging-symbolic"
            } else {
                "battery-level-100-charging-symbolic"
            }
        },
        _ => {
            if percentage <= 10 {
                "battery-level-10-symbolic"
            } else if percentage <= 20 {
                "battery-level-20-symbolic"
            } else if percentage <= 40 {
                "battery-level-40-symbolic"
            } else if percentage <= 60 {
                "battery-level-60-symbolic"
            } else if percentage <= 80 {
                "battery-level-80-symbolic"
            } else {
                "battery-level-100-symbolic"
            }
        },
    }
}

/// The step of 20 that a charging icon shows for `p` percent: the
/// smallest of 20, 40, 60, 80 and 100 at or above it (100 above that).
pub open spec fn is_charge_step(l: nat, p: u8) -> bool {
    &&& l % 20 == 0
    &&& 20 <= l <= 100
    &&& (p <= l || l == 100)
    &&& (l == 20 || p > l - 20)
}

/// The step an icon on battery shows for `p` percent: the smallest of 10,
/// 20, 40, 60, 80 and 100 at or above it (100 above that).
pub open spec fn is_discharge_step(l: nat, p: u8) -> bool {
    &&& (l == 10 || (l % 20 == 0 && 20 <= l <= 100))
    &&& (p <= l || l == 100)
    &&& (l == 10 || (l == 20 && p > 10) || (l > 20 && p > l - 20))
}

proof fn lemma_dec_two_digits(n: nat)
    requires
        10 <= n < 100,
    ensures
        dec(n) == seq![crate::text::digit_char(n / 10), crate::text::digit_char(n % 10)],
{
    assert(dec(n / 10) == seq![crate::text::digit_char(n / 10)]);
    assert(dec(n) =~= seq![crate::text::digit_char(n / 10), crate::text::digit_char(n % 10)]);
}

proof fn lemma_dec_hundred()
    ensures
        dec(100) == seq!['1', '0', '0'],
{
    lemma_dec_two_digits(10);
    assert(crate::text::digit_char(1) == '1');
    assert(crate::text::digit_char(0) == '0');
    assert(dec(100) =~= seq!['1', '0', '0']);
}

/// A battery's icon names its state and its charge: charging or not, and
/// the step of its charge. A charging battery's icon is
/// `battery-level-<step>-charging-symbolic`, and another one's
/// `battery-level-<step>-symbolic`, where the step is the smallest at or
/// above the percentage.
pub proof fn lemma_icon_names_state_and_step(status: BatteryStatus, p: u8)
    ensures
        status == BatteryStatus::Charging ==> exists|l: nat| is_charge_step(l, p)
            && icon_for(status, p) == "battery-level-"@ + dec(l) + "-charging-symbolic"@,
        status != BatteryStatus::Charging ==> exists|l: nat| is_discharge_step(l, p)
            && icon_for(status, p) == "battery-level-"@ + dec(l) + "-symbolic"@,
{
    reveal_strlit("battery-level-");
    reveal_strlit("-charging-symbolic");
    reveal_strlit("-symbolic");
    reveal_strlit("battery-level-10-symbolic");
    reveal_strlit("battery-level-20-symbolic");
    reveal_strlit("battery-level-40-symbolic");
    reveal_strlit("battery-level-60-symbolic");
    reveal_strlit("battery-level-80-symbolic");
    reveal_strlit("battery-level-100-symbolic");
    reveal_strlit("battery-level-20-charging-symbolic");
    reveal_strlit("battery-level-40-charging-symbolic");
    reveal_strlit("battery-level-60-charging-symbolic");
    reveal_strlit("battery-level-80-charging-symbolic");
    reveal_strlit("battery-level-100-charging-symbolic");
    lemma_dec_two_digits(10);
    lemma_dec_two_digits(20);
    lemma_dec_two_digits(40);
    lemma_dec_two_digits(60);
    lemma_dec_two_digits(80);
    lemma_dec_hundred();
    assert(crate::text::digit_char(0) == '0');
    assert(crate::text::digit_char(1) == '1');
    assert(crate::text::digit_char(2) == '2');
    assert(crate::text::digit_char(4) == '4');
    assert(crate::text::digit_char(6) == '6');
    assert(crate::text::digit_char(8) == '8');
    let cs = "-charging-symbolic"@;
    let ss = "-symbolic"@;
    let pre = "battery-level-"@;
    if status == BatteryStatus::Charging {
        let l: nat = if p <= 20 { 20 } else if p <= 40 { 40 } else if p <= 60 { 60 } else if p <= 80 { 80 } else { 100 };
        assert(is_charge_step(l, p));
        assert(icon_for(status, p) =~= pre + dec(l) + cs);
    } else {
        let l: nat = if p <= 10 { 10 } else if p <= 20 { 20 } else if p <= 40 { 40 } else if p <= 60 { 60 } else if p <= 80 { 80 } else { 100 };
        assert(is_discharge_step(l, p));
        assert(icon_for(status, p) =~= pre + dec(l) + ss);
    }
}

} // verus!
