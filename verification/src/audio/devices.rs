//! Output and input devices, as `pactl list sinks` / `pactl list sources`
//! describe them.

use vstd::prelude::*;
use crate::text::{chars_of, contains, contains_chars, find, find_chars, lemma_find, lines, occurs_at, lines_of, parse_u32, parse_unsigned, second_piece, second_piece_of, slice_chars, starts_with, starts_with_chars, chars_eq, string_from, trim, trimmed, str_eq};

verus! {

/// An audio device. Its volume is kept as a percentage: 100 is full
/// volume.
#[derive(Debug, Clone)]
pub struct AudioDevice {
    pub id: u32,
    /// Internal name (e.g. "alsa_output.usb-...").
    pub name: String,
    /// Human-readable description.
    pub description: String,
    pub volume_percent: u32,
    pub muted: bool,
    pub is_default: bool,
}

/// A device as plain values.
pub struct DeviceView {
    pub id: u32,
    pub name: Seq<char>,
    pub description: Seq<char>,
    pub volume_percent: u32,
    pub muted: bool,
    pub is_default: bool,
}

impl View for AudioDevice {
    type V = DeviceView;

    open spec fn view(&self) -> DeviceView {
        DeviceView {
            id: self.id,
            name: self.name@,
            description: self.description@,
            volume_percent: self.volume_percent,
            muted: self.muted,
            is_default: self.is_default,
        }
    }
}

/// The number in a block header such as `Sink #47`: what follows the
/// first `#` up to the next, or 0 when that is not a number.
pub open spec fn header_id(t: Seq<char>) -> u32 {
    match second_piece(t, '#') {
        Some(p) => match parse_unsigned(p, u32::MAX as nat) {
            Some(v) => v as u32,
            None => 0,
        },
        None => 0,
    }
}

/// The percentage on a `Volume:` line: the number between the first `/ `
/// and the `%` after it, if it is one.
pub open spec fn volume_of(t: Seq<char>) -> Option<u32> {
    match find(t, "/ "@) {
        Some(ps) => {
            let rest = t.skip(ps + 2);
            match find(rest, "%"@) {
                Some(pe) => match parse_unsigned(trim(rest.take(pe)), u32::MAX as nat) {
                    Some(v) => Some(v as u32),
                    None => None,
                },
                None => None,
            }
        },
        None => None,
    }
}

/// A block header: a trimmed line starting with `Sink #` or `Source #`.
pub open spec fn is_device_header(t: Seq<char>) -> bool {
    starts_with(t, "Sink #"@) || starts_with(t, "Source #"@)
}

/// A device just begun by its header.
pub open spec fn new_device(t: Seq<char>) -> DeviceView {
    DeviceView {
        id: header_id(t),
        name: seq![],
        description: seq![],
        volume_percent: 100,
        muted: false,
        is_default: false,
    }
}

/// A device after one more trimmed line of its block.
pub open spec fn device_after(d: DeviceView, t: Seq<char>, default_name: Seq<char>) -> DeviceView {
    if starts_with(t, "Name:"@) {
        let name = trim(t.skip(5));
        DeviceView { name: name, is_default: name == default_name, ..d }
    } else if starts_with(t, "Description:"@) {
        DeviceView { description: trim(t.skip(12)), ..d }
    } else if starts_with(t, "Mute:"@) {
        DeviceView { muted: contains(t, "yes"@), ..d }
    } else if starts_with(t, "Volume:"@) {
        match volume_of(t) {
            Some(v) => DeviceView { volume_percent: v, ..d },
            None => d,
        }
    } else {
        d
    }
}

/// Sinks whose name contains `.monitor` are left out; sources are all kept.
pub open spec fn keeps(d: DeviceView, sinks: bool) -> bool {
    sinks ==> !contains(d.name, ".monitor"@)
}

/// `done` with `cur` added when there is one and it is kept.
pub open spec fn flushed(done: Seq<DeviceView>, cur: Option<DeviceView>, sinks: bool) -> Seq<DeviceView> {
    match cur {
        Some(d) => if keeps(d, sinks) { done.push(d) } else { done },
        None => done,
    }
}

/// The devices finished and the one being read, after the given lines.
pub open spec fn scan_devices(ls: Seq<Seq<char>>, default_name: Seq<char>, sinks: bool) -> (Seq<DeviceView>, Option<DeviceView>)
    decreases ls.len(),
{
    if ls.len() == 0 {
        (seq![], None)
    } else {
        let st = scan_devices(ls.drop_last(), default_name, sinks);
        let t = trim(ls.last());
        if is_device_header(t) {
            (flushed(st.0, st.1, sinks), Some(new_device(t)))
        } else {
            match st.1 {
                Some(d) => (st.0, Some(device_after(d, t, default_name))),
                None => st,
            }
        }
    }
}

/// The devices a `pactl list` output describes, in order; `default_output`
/// is what `pactl get-default-sink` (or `-source`) printed.
pub open spec fn devices_in(output: Seq<char>, default_output: Seq<char>, sinks: bool) -> Seq<DeviceView> {
    let st = scan_devices(lines(output), trim(default_output), sinks);
    flushed(st.0, st.1, sinks)
}

pub(crate) fn volume_in(t: &Vec<char>) -> (r: Option<u32>)
    ensures
        r == volume_of(t@),
{
    let sep = chars_of("/ ");
    let pct = chars_of("%");
    proof {
        reveal_strlit("/ ");
        reveal_strlit("%");
        lemma_find(t@, "/ "@);
    }
    match find_chars(t.as_slice(), sep.as_slice()) {
        Some(ps) => {
            assert(occurs_at(t@, "/ "@, ps as int));
            assert("/ "@.len() == 2);
            let n = t.len();
            let rest = slice_chars(t.as_slice(), ps + 2, n);
            assert(rest@ =~= t@.skip(ps + 2));
            match find_chars(rest.as_slice(), pct.as_slice()) {
                Some(pe) => {
                    proof {
                        lemma_find(rest@, "%"@);
                    }
                    let num = slice_chars(rest.as_slice(), 0, pe);
                    assert(num@ =~= rest@.take(pe as int));
                    let num = trimmed(num.as_slice());
                    parse_u32(num.as_slice())
                },
                None => None,
            }
        },
        None => None,
    }
}

fn header_id_of(t: &Vec<char>) -> (r: u32)
    ensures
        r == header_id(t@),
{
    match second_piece_of(t.as_slice(), '#') {
        Some(p) => match parse_u32(p.as_slice()) {
            Some(v) => v,
            None => 0,
        },
        None => 0,
    }
}

fn update_device(d: &mut AudioDevice, t: &Vec<char>, default_name: &Vec<char>)
    ensures
        final(d)@ == device_after(old(d)@, t@, default_name@),
{
    let name_p = chars_of("Name:");
    let desc_p = chars_of("Description:");
    let mute_p = chars_of("Mute:");
    let vol_p = chars_of("Volume:");
    let yes = chars_of("yes");
    proof {
        reveal_strlit("Name:");
        reveal_strlit("Description:");
    }
    if starts_with_chars(t.as_slice(), name_p.as_slice()) {
        let rest = slice_chars(t.as_slice(), 5, t.len());
        assert(rest@ =~= t@.skip(5));
        let name = trimmed(rest.as_slice());
        d.is_default = chars_eq(name.as_slice(), default_name.as_slice());
        d.name = string_from(name.as_slice());
    } else if starts_with_chars(t.as_slice(), desc_p.as_slice()) {
        let rest = slice_chars(t.as_slice(), 12, t.len());
        assert(rest@ =~= t@.skip(12));
        let desc = trimmed(rest.as_slice());
        d.description = string_from(desc.as_slice());
    } else if starts_with_chars(t.as_slice(), mute_p.as_slice()) {
        d.muted = contains_chars(t.as_slice(), yes.as_slice());
    } else if starts_with_chars(t.as_slice(), vol_p.as_slice()) {
        match volume_in(t) {
            Some(v) => {
                d.volume_percent = v;
            },
            None => {},
        }
    }
}

fn push_kept(done: &mut Vec<AudioDevice>, cur: Option<AudioDevice>, sinks: bool)
    ensures
        final(done)@.map_values(|x: AudioDevice| x@) == flushed(old(done)@.map_values(|x: AudioDevice| x@), match cur {
            Some(d) => Some(d@),
            None => None,
        }, sinks),
{
    let monitor = chars_of(".monitor");
    match cur {
        Some(d) => {
            let name = chars_of(d.name.as_str());
            let keep = !sinks || !contains_chars(name.as_slice(), monitor.as_slice());
            if keep {
                done.push(d);
                assert(final(done)@.map_values(|x: AudioDevice| x@) =~= old(done)@.map_values(|x: AudioDevice| x@).push(d@));
            }
        },
        None => {},
    }
}

/// The devices a `pactl list sinks` (when `sinks`) or `pactl list sources`
/// output describes; `default_output` is what `pactl get-default-sink` or
/// `get-default-source` printed.
pub fn parse_devices(output: &str, default_output: &str, sinks: bool) -> (r: Vec<AudioDevice>)
    ensures
        r@.map_values(|x: AudioDevice| x@) == devices_in(output@, default_output@, sinks),
{
    let dc = chars_of(default_output);
    let default_name = trimmed(dc.as_slice());
    let oc = chars_of(output);
    let ls = lines_of(oc.as_slice());
    let ghost lsv = lines(output@);
    let sink_p = chars_of("Sink #");
    let source_p = chars_of("Source #");
    let mut done: Vec<AudioDevice> = Vec::new();
    let mut cur: Option<AudioDevice> = None;
    let mut i: usize = 0;
    while i < ls.len()
        invariant
            i <= ls@.len(),
            ls@.len() == lsv.len(),
            forall|k: int| 0 <= k < ls@.len() ==> (#[trigger] ls@[k])@ == lsv[k],
            lsv == lines(output@),
            default_name@ == trim(default_output@),
            sink_p@ == "Sink #"@,
            source_p@ == "Source #"@,
            ({
                let st = scan_devices(lsv.take(i as int), default_name@, sinks);
                &&& done@.map_values(|x: AudioDevice| x@) == st.0
                &&& st.1 == match cur {
                    Some(d) => Some(d@),
                    None => None,
                }
            }),
        decreases ls@.len() - i,
    {
        assert(lsv.take(i + 1).drop_last() =~= lsv.take(i as int));
        let t = trimmed(ls[i].as_slice());
        if starts_with_chars(t.as_slice(), sink_p.as_slice()) || starts_with_chars(t.as_slice(), source_p.as_slice()) {
            let prev = cur;
            push_kept(&mut done, prev, sinks);
            cur = Some(AudioDevice {
                id: header_id_of(&t),
                name: String::new(),
                description: String::new(),
                volume_percent: 100,
                muted: false,
                is_default: false,
            });
        } else {
            match cur {
                Some(mut d) => {
                    update_device(&mut d, &t, &default_name);
                    cur = Some(d);
                },
                None => {
                    cur = None;
                },
            }
        }
        i += 1;
    }
    assert(lsv.take(i as int) =~= lsv);
    push_kept(&mut done, cur, sinks);
    done
}

proof fn lemma_scan_marks_default(ls: Seq<Seq<char>>, dn: Seq<char>, sinks: bool)
    ensures
        ({
            let st = scan_devices(ls, dn, sinks);
            &&& forall|i: int| 0 <= i < st.0.len() ==> (#[trigger] st.0[i]).is_default ==> st.0[i].name == dn
            &&& forall|i: int| 0 <= i < st.0.len() ==> dn.len() > 0 && (#[trigger] st.0[i]).name == dn ==> st.0[i].is_default
            &&& st.1 matches Some(d) ==> (d.is_default ==> d.name == dn) && (dn.len() > 0 && d.name == dn ==> d.is_default)
        }),
    decreases ls.len(),
{
    if ls.len() > 0 {
        lemma_scan_marks_default(ls.drop_last(), dn, sinks);
        let st = scan_devices(ls.drop_last(), dn, sinks);
        let t = trim(ls.last());
        if is_device_header(t) {
            let f = flushed(st.0, st.1, sinks);
            assert forall|i: int| 0 <= i < f.len() implies ((#[trigger] f[i]).is_default ==> f[i].name == dn) && (dn.len() > 0 && f[i].name == dn ==> f[i].is_default) by {
                if i < st.0.len() {
                    assert(f[i] == st.0[i]);
                }
            }
            assert(new_device(t).name.len() == 0);
        }
    }
}

/// A device read from a `pactl list` output is marked default only when
/// its `Name:` value is the trimmed default-device name given, and, when
/// that name is not empty, every device with that name is marked default.
pub proof fn lemma_default_device_marked(output: Seq<char>, default_output: Seq<char>, sinks: bool)
    ensures
        forall|i: int| 0 <= i < devices_in(output, default_output, sinks).len()
            ==> (#[trigger] devices_in(output, default_output, sinks)[i]).is_default
            ==> devices_in(output, default_output, sinks)[i].name == trim(default_output),
        trim(default_output).len() > 0 ==> forall|i: int| 0 <= i < devices_in(output, default_output, sinks).len()
            ==> ((#[trigger] devices_in(output, default_output, sinks)[i]).is_default
                <==> devices_in(output, default_output, sinks)[i].name == trim(default_output)),
{
    let dn = trim(default_output);
    let ls = lines(output);
    lemma_scan_marks_default(ls, dn, sinks);
    let st = scan_devices(ls, dn, sinks);
    let f = flushed(st.0, st.1, sinks);
    assert forall|i: int| 0 <= i < f.len() implies ((#[trigger] f[i]).is_default ==> f[i].name == dn) && (dn.len() > 0 && f[i].name == dn ==> f[i].is_default) by {
        if i < st.0.len() {
            assert(f[i] == st.0[i]);
        }
    }
}

/// The name of the device with the given id, if there is one.
pub fn name_of_device(devices: &Vec<AudioDevice>, id: u32) -> (r: Option<String>)
    ensures
        r matches Some(n) ==> exists|i: int| 0 <= i < devices@.len() && devices@[i].id == id && n@ == devices@[i].name@ && forall|j: int| 0 <= j < i ==> devices@[j].id != id,
        r is None ==> forall|j: int| 0 <= j < devices@.len() ==> devices@[j].id != id,
{
    let mut i: usize = 0;
    while i < devices.len()
        invariant
            i <= devices@.len(),
            forall|j: int| 0 <= j < i ==> devices@[j].id != id,
        decreases devices@.len() - i,
    {
        if devices[i].id == id {
            return Some(devices[i].name.clone());
        }
        i += 1;
    }
    None
}


} // verus!
