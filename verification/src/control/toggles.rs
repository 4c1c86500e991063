//! The quick toggles of the control center: which are shown, how each
//! reads its state from a command's output, and what a click runs.

use vstd::prelude::*;
use crate::text::{contains, str_contains, trim, trimmed_is};

verus! {

/// A quick toggle.
#[derive(Debug, Clone, Copy, PartialEq, Eq, Structural)]
pub enum Toggle {
    Wifi,
    Bluetooth,
    Dnd,
    Caffeine,
    NightLight,
    Vpn,
}

/// The toggles that the settings switch on, in the order of the grid.
pub open spec fn shown(wifi: bool, bluetooth: bool, dnd: bool, caffeine: bool, night_light: bool, vpn: bool) -> Seq<Toggle> {
    let s0 = if wifi { seq![Toggle::Wifi] } else { seq![] };
    let s1 = if bluetooth { s0.push(Toggle::Bluetooth) } else { s0 };
    let s2 = if dnd { s1.push(Toggle::Dnd) } else { s1 };
    let s3 = if caffeine { s2.push(Toggle::Caffeine) } else { s2 };
    let s4 = if night_light { s3.push(Toggle::NightLight) } else { s3 };
    if vpn { s4.push(Toggle::Vpn) } else { s4 }
}

/// The toggles in the grid, from the settings that switch each on.
pub fn shown_toggles(wifi: bool, bluetooth: bool, dnd: bool, caffeine: bool, night_light: bool, vpn: bool) -> (r: Vec<Toggle>)
    ensures
        r@ == shown(wifi, bluetooth, dnd, caffeine, night_light, vpn),
{
    let mut r: Vec<Toggle> = Vec::new();
    if wifi {
        r.push(Toggle::Wifi);
    }
    if bluetooth {
        r.push(Toggle::Bluetooth);
    }
    if dnd {
        r.push(Toggle::Dnd);
    }
    if caffeine {
        r.push(Toggle::Caffeine);
    }
    if night_light {
        r.push(Toggle::NightLight);
    }
    if vpn {
        r.push(Toggle::Vpn);
    }
    r
}

/// The icon and the label of a toggle.
pub fn toggle_face(t: Toggle) -> (r: (&'static str, &'static str))
    ensures
        r.0@ == (match t {
            Toggle::Wifi => "network-wireless-symbolic"@,
            Toggle::Bluetooth => "bluetooth-symbolic"@,
            Toggle::Dnd => "notifications-disabled-symbolic"@,
            Toggle::Caffeine => "display-brightness-symbolic"@,
            Toggle::NightLight => "night-light-symbolic"@,
            Toggle::Vpn => "network-vpn-symbolic"@,
        }),
        r.1@ == (match t {
            Toggle::Wifi => "WiFi"@,
            Toggle::Bluetooth => "Bluetooth"@,
            Toggle::Dnd => "DND"@,
            Toggle::Caffeine => "Caffeine"@,
            Toggle::NightLight => "Night"@,
            Toggle::Vpn => "VPN"@,
        }),
{
    match t {
        Toggle::Wifi => ("network-wireless-symbolic", "WiFi"),
        Toggle::Bluetooth => ("bluetooth-symbolic", "Bluetooth"),
        Toggle::Dnd => ("notifications-disabled-symbolic", "DND"),
        Toggle::Caffeine => ("display-brightness-symbolic", "Caffeine"),
        Toggle::NightLight => ("night-light-symbolic", "Night"),
        Toggle::Vpn => ("network-vpn-symbolic", "VPN"),
    }
}

/// Whether wifi is on, from the output of `nmcli radio wifi`.
pub fn wifi_enabled(output: &str) -> (r: bool)
    ensures
        r == (trim(output@) == "enabled"@),
{
    trimmed_is(output, "enabled")
}

/// Whether do-not-disturb is on, from the output of `swaync-client --get-dnd`.
pub fn dnd_enabled(output: &str) -> (r: bool)
    ensures
        r == (trim(output@) == "true"@),
{
    trimmed_is(output, "true")
}

/// Whether the VPN link is up, from the output of `ip link show`.
pub fn vpn_up(output: &str) -> (r: bool)
    ensures
        r == contains(output@, "state UP"@),
{
    str_contains(output, "state UP")
}

/// The state a radio is switched to by a click: off when it is on, else on.
pub fn flipped_state(enabled: bool) -> (r: &'static str)
    ensures
        r@ == (if enabled { "off"@ } else { "on"@ }),
{
    if enabled {
        "off"
    } else {
        "on"
    }
}

/// The direction `wg-quick` is run in by a click on the VPN toggle.
pub fn vpn_direction(up: bool) -> (r: &'static str)
    ensures
        r@ == (if up { "down"@ } else { "up"@ }),
{
    if up {
        "down"
    } else {
        "up"
    }
}

/// What a click on the caffeine toggle does.
#[derive(Debug, Clone, Copy, PartialEq, Eq, Structural)]
pub enum CaffeineAction {
    /// Run the user's own toggle script.
    RunScript,
    /// Remove the pid file and stop the inhibitor.
    Stop,
    /// Start an idle inhibitor.
    Start,
}

/// The caffeine toggle runs the user's script where there is one, else
/// stops the inhibitor that runs, else starts one.
pub fn caffeine_action(script_exists: bool, enabled: bool) -> (r: CaffeineAction)
    ensures
        r == (if script_exists { CaffeineAction::RunScript } else if enabled { CaffeineAction::Stop } else { CaffeineAction::Start }),
{
    if script_exists {
        CaffeineAction::RunScript
    } else if enabled {
        CaffeineAction::Stop
    } else {
        CaffeineAction::Start
    }
}

/// Caffeine counts as on where its pid file exists or a `caffeine`
/// process runs.
pub fn caffeine_enabled(pid_file_exists: bool, process_found: bool) -> (r: bool)
    ensures
        r == (pid_file_exists || process_found),
{
    pid_file_exists || process_found
}

} // verus!
