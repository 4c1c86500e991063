//! The master levels that `wpctl get-volume` reports, and the device
//! selector's choices.

use vstd::prelude::*;
use crate::audio::devices::AudioDevice;
use crate::text::{contains, str_contains};

verus! {

/// Whether `wpctl get-volume` reports the device muted.
pub fn muted_in(output: &str) -> (r: bool)
    ensures
        r == contains(output@, "[MUTED]"@),
{
    str_contains(output, "[MUTED]")
}

/// The node `wpctl` addresses for the default output or input.
pub fn default_node(is_output: bool) -> (r: &'static str)
    ensures
        r@ == (if is_output { "@DEFAULT_AUDIO_SINK@"@ } else { "@DEFAULT_AUDIO_SOURCE@"@ }),
{
    if is_output {
        "@DEFAULT_AUDIO_SINK@"
    } else {
        "@DEFAULT_AUDIO_SOURCE@"
    }
}

/// The icon of the device selector: speakers for outputs, a microphone for
/// inputs.
pub fn selector_icon(is_output: bool) -> (r: &'static str)
    ensures
        r@ == (if is_output { "audio-speakers-symbolic"@ } else { "audio-input-microphone-symbolic"@ }),
{
    if is_output {
        "audio-speakers-symbolic"
    } else {
        "audio-input-microphone-symbolic"
    }
}

/// The icon of the input's mute button: a crossed-out microphone while
/// the input is muted.
pub fn input_icon(muted: bool) -> (r: &'static str)
    ensures
        r@ == (if muted { "microphone-disabled-symbolic"@ } else { "audio-input-microphone-symbolic"@ }),
{
    if muted {
        "microphone-disabled-symbolic"
    } else {
        "audio-input-microphone-symbolic"
    }
}

/// The first default device among `devices`.
pub open spec fn first_default(devices: Seq<AudioDevice>, i: int) -> bool {
    &&& 0 <= i < devices.len()
    &&& devices[i].is_default
    &&& forall|j: int| 0 <= j < i ==> !devices[j].is_default
}

/// The name the selector shows: that of the first default device, or
/// `No device`.
pub fn current_device_name(devices: &Vec<AudioDevice>) -> (r: String)
    ensures
        (exists|i: int| first_default(devices@, i)) ==> r@ == devices@[choose|i: int| first_default(devices@, i)].name@,
        !(exists|i: int| 0 <= i < devices@.len() && devices@[i].is_default) ==> r@ == "No device"@,
{
    let mut i: usize = 0;
    while i < devices.len()
        invariant
            i <= devices@.len(),
            forall|j: int| 0 <= j < i ==> !devices@[j].is_default,
        decreases devices@.len() - i,
    {
        if devices[i].is_default {
            proof {
                assert(first_default(devices@, i as int));
                let c = choose|k: int| first_default(devices@, k);
                if c < i {
                    assert(devices@[c].is_default);
                }
                if c > i {
                    assert(!devices@[i as int].is_default);
                }
            }
            return devices[i].name.clone();
        }
        i += 1;
    }
    "No device".to_string()
}

/// The highest level a volume slider goes to, in percent: 150 where going
/// over full volume is allowed, else 100.
pub fn volume_limit_percent(volume_override: bool) -> (r: u32)
    ensures
        r == (if volume_override { 150u32 } else { 100u32 }),
{
    if volume_override {
        150
    } else {
        100
    }
}

/// Where a slider stands for a level in percent: the level, but no higher
/// than the slider goes.
pub fn slider_percent(level: u32, volume_override: bool) -> (r: u32)
    ensures
        r == (if level > volume_limit_spec(volume_override) { volume_limit_spec(volume_override) } else { level }),
{
    let limit = volume_limit_percent(volume_override);
    if level > limit {
        limit
    } else {
        level
    }
}

/// The slider's limit in percent.
pub open spec fn volume_limit_spec(volume_override: bool) -> u32 {
    if volume_override { 150 } else { 100 }
}

} // verus!
