//! Bluetooth devices as `bluetoothctl` lists and describes them, how the
//! panel groups and orders them, and what clicking one does.

use vstd::prelude::*;
use crate::order::{ranked_order, sorted_order};
use crate::text::{chars_eq, chars_of, contains, index_of, index_of_from, lines, lines_of, slice_chars, str_contains, str_eq, string_from};

verus! {

/// A bluetooth device.
#[derive(Debug, Clone)]
pub struct BluetoothDevice {
    pub address: String,
    pub name: String,
    pub paired: bool,
    pub trusted: bool,
    pub connected: bool,
    pub icon: String,
}

/// The three pieces `splitn(3, ' ')` gives, when there are three.
pub open spec fn three_pieces(line: Seq<char>) -> Option<(Seq<char>, Seq<char>, Seq<char>)> {
    let i = index_of(line, ' ');
    if i < line.len() {
        let rest = line.skip(i + 1 as int);
        let j = index_of(rest, ' ');
        if j < rest.len() {
            Some((line.take(i as int), rest.take(j as int), rest.skip(j + 1 as int)))
        } else {
            None
        }
    } else {
        None
    }
}

/// A `Device <address> <name>` line: the address and the name, which may
/// hold spaces.
pub open spec fn device_line(line: Seq<char>) -> Option<(Seq<char>, Seq<char>)> {
    match three_pieces(line) {
        Some(p) => if p.0 == "Device"@ { Some((p.1, p.2)) } else { None },
        None => None,
    }
}

/// A device as first listed: not paired, trusted or connected, with the
/// generic bluetooth icon.
pub open spec fn listed_device(d: BluetoothDevice, address: Seq<char>, name: Seq<char>) -> bool {
    &&& d.address@ == address
    &&& d.name@ == name
    &&& !d.paired
    &&& !d.trusted
    &&& !d.connected
    &&& d.icon@ == "bluetooth-symbolic"@
}

/// Reads a `Device XX:XX:XX:XX:XX:XX Device Name` line.
pub fn parse_device_line(line: &str) -> (r: Option<BluetoothDevice>)
    ensures
        r matches Some(d) ==> device_line(line@) matches Some(p) && listed_device(d, p.0, p.1),
        r is None ==> device_line(line@) is None,
{
    let s = chars_of(line);
    let n = s.len();
    let i = index_of_from(s.as_slice(), ' ', 0);
    assert(s@.skip(0) =~= s@);
    if i == n {
        return None;
    }
    let j = index_of_from(s.as_slice(), ' ', i + 1);
    if j == n {
        return None;
    }
    let first = slice_chars(s.as_slice(), 0, i);
    let second = slice_chars(s.as_slice(), i + 1, j);
    let third = slice_chars(s.as_slice(), j + 1, n);
    proof {
        let rest = s@.skip(i + 1);
        assert(rest.take(j - (i + 1)) =~= second@);
        assert(rest.skip(j - (i + 1) + 1) =~= third@);
        assert(s@.take(i as int) =~= first@);
    }
    let device_word = chars_of("Device");
    if !chars_eq(first.as_slice(), device_word.as_slice()) {
        return None;
    }
    Some(BluetoothDevice {
        address: string_from(second.as_slice()),
        name: string_from(third.as_slice()),
        paired: false,
        trusted: false,
        connected: false,
        icon: "bluetooth-symbolic".to_string(),
    })
}

/// The icon for a device, from what `bluetoothctl info` said of it; `None`
/// keeps the icon it has.
pub open spec fn info_icon(info: Seq<char>) -> Option<Seq<char>> {
    if contains(info, "Icon: audio-headset"@) || contains(info, "Icon: audio-headphones"@) {
        Some("audio-headphones-symbolic"@)
    } else if contains(info, "Icon: audio-card"@) {
        Some("audio-speakers-symbolic"@)
    } else if contains(info, "Icon: input-keyboard"@) {
        Some("input-keyboard-symbolic"@)
    } else if contains(info, "Icon: input-mouse"@) {
        Some("input-mouse-symbolic"@)
    } else if contains(info, "Icon: input-gaming"@) {
        Some("input-gaming-symbolic"@)
    } else if contains(info, "Icon: phone"@) {
        Some("phone-symbolic"@)
    } else if contains(info, "Icon: computer"@) {
        Some("computer-symbolic"@)
    } else {
        None
    }
}

/// Updates a device from the output of `bluetoothctl info <address>`:
/// connected, paired, trusted, and the icon for its kind.
pub fn apply_info(device: &mut BluetoothDevice, info: &str)
    ensures
        final(device).address == old(device).address,
        final(device).name == old(device).name,
        final(device).connected == contains(info@, "Connected: yes"@),
        final(device).paired == contains(info@, "Paired: yes"@),
        final(device).trusted == contains(info@, "Trusted: yes"@),
        final(device).icon@ == (match info_icon(info@) {
            Some(i) => i,
            None => old(device).icon@,
        }),
{
    device.connected = str_contains(info, "Connected: yes");
    device.paired = str_contains(info, "Paired: yes");
    device.trusted = str_contains(info, "Trusted: yes");
    if str_contains(info, "Icon: audio-headset") || str_contains(info, "Icon: audio-headphones") {
        device.icon = "audio-headphones-symbolic".to_string();
    } else if str_contains(info, "Icon: audio-card") {
        device.icon = "audio-speakers-symbolic".to_string();
    } else if str_contains(info, "Icon: input-keyboard") {
        device.icon = "input-keyboard-symbolic".to_string();
    } else if str_contains(info, "Icon: input-mouse") {
        device.icon = "input-mouse-symbolic".to_string();
    } else if str_contains(info, "Icon: input-gaming") {
        device.icon = "input-gaming-symbolic".to_string();
    } else if str_contains(info, "Icon: phone") {
        device.icon = "phone-symbolic".to_string();
    } else if str_contains(info, "Icon: computer") {
        device.icon = "computer-symbolic".to_string();
    }
}

/// Whether the adapter is on, from the output of `bluetoothctl show`.
pub fn powered_on(show_output: &str) -> (r: bool)
    ensures
        r == contains(show_output@, "Powered: yes"@),
{
    str_contains(show_output, "Powered: yes")
}

/// The argument of `bluetoothctl power`.
pub fn power_state(enable: bool) -> (r: &'static str)
    ensures
        r@ == (if enable { "on"@ } else { "off"@ }),
{
    if enable {
        "on"
    } else {
        "off"
    }
}

/// What the panel says of a device.
pub fn device_status(device: &BluetoothDevice) -> (r: &'static str)
    ensures
        r@ == (if device.connected { "Connected"@ } else if device.paired { "Paired"@ } else { "Available"@ }),
{
    if device.connected {
        "Connected"
    } else if device.paired {
        "Paired"
    } else {
        "Available"
    }
}

/// What a right click or long press on a device does.
#[derive(Debug, Clone, Copy, PartialEq, Eq, Structural)]
pub enum ContextAction {
    /// Pair, then trust if pairing worked.
    PairAndTrust,
    Trust,
    Remove,
}

/// The context action for a device: pair an unpaired one, trust an
/// untrusted one, else remove it.
pub fn context_action(paired: bool, trusted: bool) -> (r: ContextAction)
    ensures
        r == (if !paired { ContextAction::PairAndTrust } else if !trusted { ContextAction::Trust } else { ContextAction::Remove }),
{
    if !paired {
        ContextAction::PairAndTrust
    } else if !trusted {
        ContextAction::Trust
    } else {
        ContextAction::Remove
    }
}


/// A `bluetoothctl` command the action button runs on a device.
#[derive(Debug, Clone, Copy, PartialEq, Eq, Structural)]
pub enum DeviceCommand {
    Disconnect,
    Pair,
    Trust,
    Connect,
}

/// What the action button does next.
#[derive(Debug, Clone, Copy, PartialEq, Eq, Structural)]
pub enum ActionStep {
    /// Run this command.
    Run(DeviceCommand),
    /// Stop, reporting whether the action worked (the button comes back).
    Report(bool),
    /// Stop without reporting: pairing failed.
    Abandon,
}

/// The next step of the action button on a device that was `connected`
/// and `paired` when the panel listed it, after the command `last` ran with
/// the given outcome (none before the first): a connected device is
/// disconnected; an unpaired one is paired, trusted if that worked, and
/// connected; a paired one is connected. The outcome reported is that of
/// the disconnect or the connect.
pub open spec fn action_step_spec(connected: bool, paired: bool, last: Option<(DeviceCommand, bool)>) -> ActionStep {
    match last {
        None => if connected {
            ActionStep::Run(DeviceCommand::Disconnect)
        } else if !paired {
            ActionStep::Run(DeviceCommand::Pair)
        } else {
            ActionStep::Run(DeviceCommand::Connect)
        },
        Some((DeviceCommand::Pair, ok)) => if ok { ActionStep::Run(DeviceCommand::Trust) } else { ActionStep::Abandon },
        Some((DeviceCommand::Trust, _)) => ActionStep::Run(DeviceCommand::Connect),
        Some((DeviceCommand::Disconnect, ok)) => ActionStep::Report(ok),
        Some((DeviceCommand::Connect, ok)) => ActionStep::Report(ok),
    }
}

/// The next step of the action button on a device.
pub fn action_step(connected: bool, paired: bool, last: Option<(DeviceCommand, bool)>) -> (r: ActionStep)
    ensures
        r == action_step_spec(connected, paired, last),
{
    match last {
        None => if connected {
            ActionStep::Run(DeviceCommand::Disconnect)
        } else if !paired {
            ActionStep::Run(DeviceCommand::Pair)
        } else {
            ActionStep::Run(DeviceCommand::Connect)
        },
        Some((DeviceCommand::Pair, ok)) => if ok { ActionStep::Run(DeviceCommand::Trust) } else { ActionStep::Abandon },
        Some((DeviceCommand::Trust, _)) => ActionStep::Run(DeviceCommand::Connect),
        Some((DeviceCommand::Disconnect, ok)) => ActionStep::Report(ok),
        Some((DeviceCommand::Connect, ok)) => ActionStep::Report(ok),
    }
}

/// The action button ends after at most four commands: disconnect and
/// report; or pair, then (if pairing worked) trust and connect and report;
/// or connect and report.
pub proof fn lemma_action_ends(connected: bool, paired: bool, pair_ok: bool, trust_ok: bool, ok: bool)
    ensures
        connected ==> action_step_spec(connected, paired, None) == ActionStep::Run(DeviceCommand::Disconnect)
            && action_step_spec(connected, paired, Some((DeviceCommand::Disconnect, ok))) == ActionStep::Report(ok),
        !connected && !paired ==> action_step_spec(connected, paired, None) == ActionStep::Run(DeviceCommand::Pair)
            && (!pair_ok ==> action_step_spec(connected, paired, Some((DeviceCommand::Pair, pair_ok))) == ActionStep::Abandon)
            && (pair_ok ==> action_step_spec(connected, paired, Some((DeviceCommand::Pair, pair_ok))) == ActionStep::Run(DeviceCommand::Trust))
            && action_step_spec(connected, paired, Some((DeviceCommand::Trust, trust_ok))) == ActionStep::Run(DeviceCommand::Connect)
            && action_step_spec(connected, paired, Some((DeviceCommand::Connect, ok))) == ActionStep::Report(ok),
        !connected && paired ==> action_step_spec(connected, paired, None) == ActionStep::Run(DeviceCommand::Connect)
            && action_step_spec(connected, paired, Some((DeviceCommand::Connect, ok))) == ActionStep::Report(ok),
{
}

/// The devices that `Device` lines among `ls` list, in order.
pub open spec fn device_entries(ls: Seq<Seq<char>>) -> Seq<(Seq<char>, Seq<char>)>
    decreases ls.len(),
{
    if ls.len() == 0 {
        seq![]
    } else {
        let e = device_entries(ls.drop_last());
        match device_line(ls.last()) {
            Some(p) => e.push(p),
            None => e,
        }
    }
}

/// `acc` followed by those of `more` whose address is not listed yet.
pub open spec fn add_new(acc: Seq<(Seq<char>, Seq<char>)>, more: Seq<(Seq<char>, Seq<char>)>) -> Seq<(Seq<char>, Seq<char>)>
    decreases more.len(),
{
    if more.len() == 0 {
        acc
    } else {
        let a = add_new(acc, more.drop_last());
        if exists|k: int| 0 <= k < a.len() && a[k].0 == more.last().0 {
            a
        } else {
            a.push(more.last())
        }
    }
}

/// The devices known: the paired ones, then the others that `bluetoothctl
/// devices` lists and that are not among them.
pub open spec fn known_devices(paired_output: Seq<char>, all_output: Seq<char>) -> Seq<(Seq<char>, Seq<char>)> {
    add_new(device_entries(lines(paired_output)), device_entries(lines(all_output)))
}

fn has_address(devices: &Vec<BluetoothDevice>, address: &String) -> (r: bool)
    ensures
        r == exists|k: int| 0 <= k < devices@.len() && devices@[k].address@ == address@,
{
    let mut i: usize = 0;
    while i < devices.len()
        invariant
            i <= devices@.len(),
            forall|k: int| 0 <= k < i ==> devices@[k].address@ != address@,
        decreases devices@.len() - i,
    {
        if str_eq(devices[i].address.as_str(), address.as_str()) {
            return true;
        }
        i += 1;
    }
    false
}

/// The devices `bluetoothctl devices Paired` and `bluetoothctl devices`
/// list, as the panel collects them before asking for each one's details.
pub fn collect_devices(paired_output: &str, all_output: &str) -> (r: Vec<BluetoothDevice>)
    ensures
        r@.len() == known_devices(paired_output@, all_output@).len(),
        forall|i: int| 0 <= i < r@.len() ==> listed_device(#[trigger] r@[i], known_devices(paired_output@, all_output@)[i].0, known_devices(paired_output@, all_output@)[i].1),
{
    let pc = chars_of(paired_output);
    let pl = lines_of(pc.as_slice());
    let ghost plv = lines(paired_output@);
    let mut r: Vec<BluetoothDevice> = Vec::new();
    let mut i: usize = 0;
    while i < pl.len()
        invariant
            i <= pl@.len(),
            pl@.len() == plv.len(),
            forall|k: int| 0 <= k < pl@.len() ==> (#[trigger] pl@[k])@ == plv[k],
            plv == lines(paired_output@),
            r@.len() == device_entries(plv.take(i as int)).len(),
            forall|k: int| 0 <= k < r@.len() ==> listed_device(#[trigger] r@[k], device_entries(plv.take(i as int))[k].0, device_entries(plv.take(i as int))[k].1),
        decreases pl@.len() - i,
    {
        assert(plv.take(i + 1).drop_last() =~= plv.take(i as int));
        let line = string_from(pl[i].as_slice());
        match parse_device_line(line.as_str()) {
            Some(d) => {
                r.push(d);
            },
            None => {},
        }
        i += 1;
    }
    assert(plv.take(i as int) =~= plv);
    let ghost base = device_entries(plv);
    let ac = chars_of(all_output);
    let al = lines_of(ac.as_slice());
    let ghost alv = lines(all_output@);
    let mut i: usize = 0;
    while i < al.len()
        invariant
            i <= al@.len(),
            al@.len() == alv.len(),
            forall|k: int| 0 <= k < al@.len() ==> (#[trigger] al@[k])@ == alv[k],
            alv == lines(all_output@),
            base == device_entries(lines(paired_output@)),
            r@.len() == add_new(base, device_entries(alv.take(i as int))).len(),
            forall|k: int| 0 <= k < r@.len() ==> listed_device(#[trigger] r@[k], add_new(base, device_entries(alv.take(i as int)))[k].0, add_new(base, device_entries(alv.take(i as int)))[k].1),
        decreases al@.len() - i,
    {
        assert(alv.take(i + 1).drop_last() =~= alv.take(i as int));
        let line = string_from(al[i].as_slice());
        let ghost acc = add_new(base, device_entries(alv.take(i as int)));
        match parse_device_line(line.as_str()) {
            Some(d) => {
                let present = has_address(&r, &d.address);
                proof {
                    let es = device_entries(alv.take(i + 1));
                    assert(es.drop_last() =~= device_entries(alv.take(i as int)));
                    if present {
                        let k = choose|k: int| 0 <= k < r@.len() && r@[k].address@ == d.address@;
                        assert(acc[k].0 == es.last().0);
                    } else {
                        assert forall|k: int| 0 <= k < acc.len() implies acc[k].0 != es.last().0 by {
                            assert(r@[k].address@ == acc[k].0);
                        }
                    }
                }
                if !present {
                    r.push(d);
                }
            },
            None => {
                assert(device_entries(alv.take(i + 1)) =~= device_entries(alv.take(i as int)));
            },
        }
        i += 1;
    }
    assert(alv.take(i as int) =~= alv);
    r
}

/// The section a device is listed under: connected ones first, then
/// paired ones, then the others.
pub open spec fn section_rank(d: BluetoothDevice) -> u8 {
    if d.connected {
        0
    } else if d.paired {
        1
    } else {
        2
    }
}

/// The section of a device, as its rank in the list.
pub fn device_section(device: &BluetoothDevice) -> (r: u8)
    ensures
        r == section_rank(*device),
{
    if device.connected {
        0
    } else if device.paired {
        1
    } else {
        2
    }
}

/// The header of a section.
pub fn section_title(rank: u8) -> (r: &'static str)
    ensures
        r@ == (if rank == 0 { "Connected"@ } else if rank == 1 { "Paired"@ } else { "Available"@ }),
{
    if rank == 0 {
        "Connected"
    } else if rank == 1 {
        "Paired"
    } else {
        "Available"
    }
}

/// The order in which the panel lists the devices: by section, then by
/// name, each group in the order it came in.
pub fn display_order(devices: &Vec<BluetoothDevice>) -> (order: Vec<usize>)
    ensures
        sorted_order(devices@.map_values(|d: BluetoothDevice| section_rank(d)), devices@.map_values(|d: BluetoothDevice| d.name@), order@),
{
    let mut ranks: Vec<u8> = Vec::new();
    let mut names: Vec<String> = Vec::new();
    let mut i: usize = 0;
    while i < devices.len()
        invariant
            i <= devices@.len(),
            ranks@.len() == i,
            names@.len() == i,
            forall|k: int| 0 <= k < i ==> ranks@[k] == section_rank(#[trigger] devices@[k]),
            forall|k: int| 0 <= k < i ==> (#[trigger] names@[k])@ == devices@[k].name@,
        decreases devices@.len() - i,
    {
        ranks.push(device_section(&devices[i]));
        names.push(devices[i].name.clone());
        i += 1;
    }
    let order = ranked_order(&ranks, &names);
    proof {
        assert(ranks@ =~= devices@.map_values(|d: BluetoothDevice| section_rank(d)));
        assert(names@.map_values(|s: String| s@) =~= devices@.map_values(|d: BluetoothDevice| d.name@));
    }
    order
}

} // verus!
