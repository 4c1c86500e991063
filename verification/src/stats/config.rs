//! Configuration of the system stats popup and its defaults. The
//! temperature thresholds are floating point and are kept by the caller.

use vstd::prelude::*;

verus! {

fn default_anchor() -> (r: String)
    ensures
        r@ == "top-right"@,
{
    "top-right".to_string()
}

fn default_margin_top() -> (r: i32)
    ensures
        r == 50,
{
    50
}

fn default_margin_right() -> (r: i32)
    ensures
        r == 10,
{
    10
}

fn default_width() -> (r: i32)
    ensures
        r == 280,
{
    280
}

fn default_poll_interval() -> (r: u64)
    ensures
        r == 2000,
{
    2000
}

fn default_true() -> (r: bool)
    ensures
        r == true,
{
    true
}

fn default_temp_labels() -> (r: Vec<String>)
    ensures
        r@.len() == 3,
        r@[0]@ == "package"@,
        r@[1]@ == "gpu"@,
        r@[2]@ == "core 0"@,
{
    vec!["package".to_string(), "gpu".to_string(), "core 0".to_string()]
}

fn default_max_display() -> (r: usize)
    ensures
        r == 4,
{
    4
}

fn default_animation_type() -> (r: String)
    ensures
        r@ == "slide"@,
{
    "slide".to_string()
}

fn default_direction() -> (r: String)
    ensures
        r@ == "down"@,
{
    "down".to_string()
}

fn default_duration() -> (r: u64)
    ensures
        r == 250,
{
    250
}

/// Where the popup stands.
#[derive(Debug, Clone)]
pub struct PositionConfig {
    pub anchor: String,
    pub margin_top: i32,
    pub margin_right: i32,
    pub margin_bottom: i32,
    pub margin_left: i32,
}

impl PositionConfig {
    /// Every field holds its default value.
    pub open spec fn is_default(self) -> bool {
        &&& self.anchor@ == "top-right"@
        &&& self.margin_top == 50
        &&& self.margin_right == 10
        &&& self.margin_bottom == 0
        &&& self.margin_left == 0
    }
}

impl Default for PositionConfig {
    fn default() -> (r: Self)
        ensures
            r.is_default(),
    {
        PositionConfig {
            anchor: default_anchor(),
            margin_top: default_margin_top(),
            margin_right: default_margin_right(),
            margin_bottom: 0,
            margin_left: 0,
        }
    }
}

/// Size of the popup.
#[derive(Debug, Clone)]
pub struct AppearanceConfig {
    pub width: i32,
}

impl AppearanceConfig {
    /// Every field holds its default value.
    pub open spec fn is_default(self) -> bool {
        &&& self.width == 280
    }
}

impl Default for AppearanceConfig {
    fn default() -> (r: Self)
        ensures
            r.is_default(),
    {
        AppearanceConfig {
            width: default_width(),
        }
    }
}

/// How the popup behaves.
#[derive(Debug, Clone)]
pub struct BehaviorConfig {
    pub poll_interval: u64,
    pub close_on_escape: bool,
    pub close_on_unfocus: bool,
}

impl BehaviorConfig {
    /// Every field holds its default value.
    pub open spec fn is_default(self) -> bool {
        &&& self.poll_interval == 2000
        &&& self.close_on_escape == true
        &&& self.close_on_unfocus == true
    }
}

impl Default for BehaviorConfig {
    fn default() -> (r: Self)
        ensures
            r.is_default(),
    {
        BehaviorConfig {
            poll_interval: default_poll_interval(),
            close_on_escape: default_true(),
            close_on_unfocus: default_true(),
        }
    }
}

/// Which sections the popup shows.
#[derive(Debug, Clone)]
pub struct SectionsConfig {
    pub cpu: bool,
    pub memory: bool,
    pub disk: bool,
    pub battery: bool,
    pub network: bool,
    pub temperatures: bool,
}

impl SectionsConfig {
    /// Every field holds its default value.
    pub open spec fn is_default(self) -> bool {
        &&& self.cpu == true
        &&& self.memory == true
        &&& self.disk == true
        &&& self.battery == true
        &&& self.network == false
        &&& self.temperatures == true
    }
}

impl Default for SectionsConfig {
    fn default() -> (r: Self)
        ensures
            r.is_default(),
    {
        SectionsConfig {
            cpu: default_true(),
            memory: default_true(),
            disk: default_true(),
            battery: default_true(),
            network: false,
            temperatures: default_true(),
        }
    }
}

/// Which temperature sensors are listed: those whose label contains one
/// of `show_labels`, at most `max_display` of them. (The warning and
/// critical thresholds of the same section are floating point and are kept
/// by the caller.)
#[derive(Debug, Clone)]
pub struct TemperatureSelection {
    pub show_labels: Vec<String>,
    pub max_display: usize,
}

impl TemperatureSelection {
    /// Every field holds its default value.
    pub open spec fn is_default(self) -> bool {
        &&& self.show_labels@.len() == 3
        &&& self.show_labels@[0]@ == "package"@
        &&& self.show_labels@[1]@ == "gpu"@
        &&& self.show_labels@[2]@ == "core 0"@
        &&& self.max_display == 4
    }
}

impl Default for TemperatureSelection {
    fn default() -> (r: Self)
        ensures
            r.is_default(),
    {
        TemperatureSelection { show_labels: default_temp_labels(), max_display: default_max_display() }
    }
}

/// Slide animation.
#[derive(Debug, Clone)]
pub struct AnimationConfig {
    pub enabled: bool,
    /// Animation kind (`type` in the file).
    pub animation_type: String,
    pub direction: String,
    pub duration: u64,
}

impl AnimationConfig {
    /// Every field holds its default value.
    pub open spec fn is_default(self) -> bool {
        &&& self.enabled == true
        &&& self.animation_type@ == "slide"@
        &&& self.direction@ == "down"@
        &&& self.duration == 250
    }
}

impl Default for AnimationConfig {
    fn default() -> (r: Self)
        ensures
            r.is_default(),
    {
        AnimationConfig {
            enabled: default_true(),
            animation_type: default_animation_type(),
            direction: default_direction(),
            duration: default_duration(),
        }
    }
}

} // verus!
