//! Configuration of the media player widget and its defaults.

use vstd::prelude::*;

verus! {

fn default_anchor() -> (r: String)
    ensures
        r@ == "top-left"@,
{
    "top-left".to_string()
}

fn default_margin_top() -> (r: i32)
    ensures
        r == 50,
{
    50
}

fn default_margin_left() -> (r: i32)
    ensures
        r == 10,
{
    10
}

fn default_width() -> (r: i32)
    ensures
        r == 320,
{
    320
}

fn default_poll_interval() -> (r: u64)
    ensures
        r == 500,
{
    500
}

fn default_true() -> (r: bool)
    ensures
        r == true,
{
    true
}

fn default_animation_type() -> (r: String)
    ensures
        r@ == "slide"@,
{
    "slide".to_string()
}

fn default_direction() -> (r: String)
    ensures
        r@ == "left"@,
{
    "left".to_string()
}

fn default_duration() -> (r: u64)
    ensures
        r == 250,
{
    250
}

/// Configuration of the media player widget.
#[derive(Debug, Clone)]
pub struct Config {
    pub position: PositionConfig,
    pub appearance: AppearanceConfig,
    pub behavior: BehaviorConfig,
    pub animation: AnimationConfig,
}

impl Config {
    /// Every field holds its default value.
    pub open spec fn is_default(self) -> bool {
        &&& self.position.is_default()
        &&& self.appearance.is_default()
        &&& self.behavior.is_default()
        &&& self.animation.is_default()
    }
}

impl Default for Config {
    fn default() -> (r: Self)
        ensures
            r.is_default(),
    {
        Config {
            position: PositionConfig::default(),
            appearance: AppearanceConfig::default(),
            behavior: BehaviorConfig::default(),
            animation: AnimationConfig::default(),
        }
    }
}

/// Where the widget stands.
#[derive(Debug, Clone)]
pub struct PositionConfig {
    pub anchor: String,
    pub margin_top: i32,
    pub margin_right: i32,
    pub margin_bottom: i32,
    pub margin_left: i32,
}

impl PositionConfig {
    /// Every field holds its default value.
    pub open spec fn is_default(self) -> bool {
        &&& self.anchor@ == "top-left"@
        &&& self.margin_top == 50
        &&& self.margin_right == 0
        &&& self.margin_bottom == 0
        &&& self.margin_left == 10
    }
}

impl Default for PositionConfig {
    fn default() -> (r: Self)
        ensures
            r.is_default(),
    {
        PositionConfig {
            anchor: default_anchor(),
            margin_top: default_margin_top(),
            margin_right: 0,
            margin_bottom: 0,
            margin_left: default_margin_left(),
        }
    }
}

/// Size of the widget.
#[derive(Debug, Clone)]
pub struct AppearanceConfig {
    pub width: i32,
}

impl AppearanceConfig {
    /// Every field holds its default value.
    pub open spec fn is_default(self) -> bool {
        &&& self.width == 320
    }
}

impl Default for AppearanceConfig {
    fn default() -> (r: Self)
        ensures
            r.is_default(),
    {
        AppearanceConfig {
            width: default_width(),
        }
    }
}

/// How the widget behaves.
#[derive(Debug, Clone)]
pub struct BehaviorConfig {
    pub poll_interval: u64,
    pub close_on_escape: bool,
    pub close_on_unfocus: bool,
}

impl BehaviorConfig {
    /// Every field holds its default value.
    pub open spec fn is_default(self) -> bool {
        &&& self.poll_interval == 500
        &&& self.close_on_escape == true
        &&& self.close_on_unfocus == false
    }
}

impl Default for BehaviorConfig {
    fn default() -> (r: Self)
        ensures
            r.is_default(),
    {
        BehaviorConfig {
            poll_interval: default_poll_interval(),
            close_on_escape: default_true(),
            close_on_unfocus: false,
        }
    }
}

/// Slide animation.
#[derive(Debug, Clone)]
pub struct AnimationConfig {
    pub enabled: bool,
    /// Animation kind (`type` in the file).
    pub animation_type: String,
    pub direction: String,
    pub duration: u64,
}

impl AnimationConfig {
    /// Every field holds its default value.
    pub open spec fn is_default(self) -> bool {
        &&& self.enabled == true
        &&& self.animation_type@ == "slide"@
        &&& self.direction@ == "left"@
        &&& self.duration == 250
    }
}

impl Default for AnimationConfig {
    fn default() -> (r: Self)
        ensures
            r.is_default(),
    {
        AnimationConfig {
            enabled: default_true(),
            animation_type: default_animation_type(),
            direction: default_direction(),
            duration: default_duration(),
        }
    }
}

} // verus!
