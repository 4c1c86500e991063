//! Configuration of the volume on-screen display and its defaults.

use vstd::prelude::*;

verus! {

fn default_anchor() -> (r: String)
    ensures
        r@ == "top-center"@,
{
    "top-center".to_string()
}

fn default_margin_top() -> (r: i32)
    ensures
        r == 50,
{
    50
}

fn default_width() -> (r: i32)
    ensures
        r == 200,
{
    200
}

fn default_height() -> (r: i32)
    ensures
        r == 48,
{
    48
}

fn default_icon_size() -> (r: i32)
    ensures
        r == 24,
{
    24
}

fn default_timeout() -> (r: u64)
    ensures
        r == 1500,
{
    1500
}

fn default_true() -> (r: bool)
    ensures
        r == true,
{
    true
}

/// Configuration of the volume on-screen display.
#[derive(Debug, Clone)]
pub struct Config {
    pub position: PositionConfig,
    pub appearance: AppearanceConfig,
    pub behavior: BehaviorConfig,
}

impl Config {
    /// Every field holds its default value.
    pub open spec fn is_default(self) -> bool {
        &&& self.position.is_default()
        &&& self.appearance.is_default()
        &&& self.behavior.is_default()
    }
}

impl Default for Config {
    fn default() -> (r: Self)
        ensures
            r.is_default(),
    {
        Config {
            position: PositionConfig::default(),
            appearance: AppearanceConfig::default(),
            behavior: BehaviorConfig::default(),
        }
    }
}

/// Where the display stands.
#[derive(Debug, Clone)]
pub struct PositionConfig {
    pub anchor: String,
    pub margin_top: i32,
    pub margin_right: i32,
    pub margin_bottom: i32,
    pub margin_left: i32,
}

impl PositionConfig {
    /// Every field holds its default value.
    pub open spec fn is_default(self) -> bool {
        &&& self.anchor@ == "top-center"@
        &&& self.margin_top == 50
        &&& self.margin_right == 0
        &&& self.margin_bottom == 0
        &&& self.margin_left == 0
    }
}

impl Default for PositionConfig {
    fn default() -> (r: Self)
        ensures
            r.is_default(),
    {
        PositionConfig {
            anchor: default_anchor(),
            margin_top: default_margin_top(),
            margin_right: 0,
            margin_bottom: 0,
            margin_left: 0,
        }
    }
}

/// Look of the display.
#[derive(Debug, Clone)]
pub struct AppearanceConfig {
    pub width: i32,
    pub height: i32,
    pub icon_size: i32,
    pub show_percentage: bool,
}

impl AppearanceConfig {
    /// Every field holds its default value.
    pub open spec fn is_default(self) -> bool {
        &&& self.width == 200
        &&& self.height == 48
        &&& self.icon_size == 24
        &&& self.show_percentage == true
    }
}

impl Default for AppearanceConfig {
    fn default() -> (r: Self)
        ensures
            r.is_default(),
    {
        AppearanceConfig {
            width: default_width(),
            height: default_height(),
            icon_size: default_icon_size(),
            show_percentage: default_true(),
        }
    }
}

/// How long the display stays.
#[derive(Debug, Clone)]
pub struct BehaviorConfig {
    /// Milliseconds before it hides.
    pub timeout: u64,
}

impl BehaviorConfig {
    /// Every field holds its default value.
    pub open spec fn is_default(self) -> bool {
        &&& self.timeout == 1500
    }
}

impl Default for BehaviorConfig {
    fn default() -> (r: Self)
        ensures
            r.is_default(),
    {
        BehaviorConfig {
            timeout: default_timeout(),
        }
    }
}

} // verus!
