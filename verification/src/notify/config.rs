//! Configuration of the notification daemon and its defaults.

use vstd::prelude::*;

verus! {

/// Anchor of the notification center panel.
fn default_anchor() -> (r: String)
    ensures
        r@ == "top-right"@,
{
    "top-right".to_string()
}

/// Anchor of popup notifications.
fn default_popup_anchor() -> (r: String)
    ensures
        r@ == "top-right"@,
{
    "top-right".to_string()
}

fn default_margin_top() -> (r: i32)
    ensures
        r == 50,
{
    50
}

fn default_margin_right() -> (r: i32)
    ensures
        r == 10,
{
    10
}

fn default_panel_width() -> (r: i32)
    ensures
        r == 380,
{
    380
}

fn default_popup_width() -> (r: i32)
    ensures
        r == 360,
{
    360
}

fn default_max_height() -> (r: i32)
    ensures
        r == 600,
{
    600
}

fn default_max_history() -> (r: usize)
    ensures
        r == 50,
{
    50
}

fn default_popup_margin() -> (r: i32)
    ensures
        r == 10,
{
    10
}

fn default_popup_gap() -> (r: i32)
    ensures
        r == 8,
{
    8
}

fn default_timeout_low() -> (r: u64)
    ensures
        r == 3000,
{
    3000
}

fn default_timeout_normal() -> (r: u64)
    ensures
        r == 5000,
{
    5000
}

fn default_timeout_critical() -> (r: u64)
    ensures
        r == 0,
{
    0
}

fn default_max_popups() -> (r: usize)
    ensures
        r == 5,
{
    5
}

fn default_true() -> (r: bool)
    ensures
        r == true,
{
    true
}

fn default_animation_type() -> (r: String)
    ensures
        r@ == "slide"@,
{
    "slide".to_string()
}

fn default_direction() -> (r: String)
    ensures
        r@ == "down"@,
{
    "down".to_string()
}

fn default_duration() -> (r: u64)
    ensures
        r == 200,
{
    200
}

/// Configuration of the notification daemon.
#[derive(Debug, Clone)]
pub struct Config {
    pub position: PositionConfig,
    pub appearance: AppearanceConfig,
    pub behavior: BehaviorConfig,
    pub popup: PopupConfig,
    pub animation: AnimationConfig,
}

impl Config {
    /// Every field holds its default value.
    pub open spec fn is_default(self) -> bool {
        &&& self.position.is_default()
        &&& self.appearance.is_default()
        &&& self.behavior.is_default()
        &&& self.popup.is_default()
        &&& self.animation.is_default()
    }
}

impl Default for Config {
    fn default() -> (r: Self)
        ensures
            r.is_default(),
    {
        Config {
            position: PositionConfig::default(),
            appearance: AppearanceConfig::default(),
            behavior: BehaviorConfig::default(),
            popup: PopupConfig::default(),
            animation: AnimationConfig::default(),
        }
    }
}

/// Where the notification center panel stands.
#[derive(Debug, Clone)]
pub struct PositionConfig {
    /// Anchor for the notification center panel.
    pub anchor: String,
    pub margin_top: i32,
    pub margin_right: i32,
    pub margin_bottom: i32,
    pub margin_left: i32,
}

impl PositionConfig {
    /// Every field holds its default value.
    pub open spec fn is_default(self) -> bool {
        &&& self.anchor@ == "top-right"@
        &&& self.margin_top == 50
        &&& self.margin_right == 10
        &&& self.margin_bottom == 0
        &&& self.margin_left == 0
    }
}

impl Default for PositionConfig {
    fn default() -> (r: Self)
        ensures
            r.is_default(),
    {
        PositionConfig {
            anchor: default_anchor(),
            margin_top: default_margin_top(),
            margin_right: default_margin_right(),
            margin_bottom: 0,
            margin_left: 0,
        }
    }
}

/// Sizes of the panel and the popups.
#[derive(Debug, Clone)]
pub struct AppearanceConfig {
    /// Width of the notification center panel.
    pub panel_width: i32,
    /// Width of popup notifications.
    pub popup_width: i32,
    /// Max height of the notification center.
    pub max_height: i32,
    /// Max notifications to keep in history.
    pub max_history: usize,
}

impl AppearanceConfig {
    /// Every field holds its default value.
    pub open spec fn is_default(self) -> bool {
        &&& self.panel_width == 380
        &&& self.popup_width == 360
        &&& self.max_height == 600
        &&& self.max_history == 50
    }
}

impl Default for AppearanceConfig {
    fn default() -> (r: Self)
        ensures
            r.is_default(),
    {
        AppearanceConfig {
            panel_width: default_panel_width(),
            popup_width: default_popup_width(),
            max_height: default_max_height(),
            max_history: default_max_history(),
        }
    }
}

/// How the daemon behaves.
#[derive(Debug, Clone)]
pub struct BehaviorConfig {
    pub close_on_escape: bool,
    pub close_on_unfocus: bool,
    /// Whether do-not-disturb is on at start.
    pub dnd_enabled: bool,
    /// Enable notification sounds.
    pub play_sounds: bool,
    /// Command for critical notifications.
    pub critical_sound: Option<String>,
}

impl BehaviorConfig {
    /// Every field holds its default value.
    pub open spec fn is_default(self) -> bool {
        &&& self.close_on_escape == true
        &&& self.close_on_unfocus == true
        &&& self.dnd_enabled == false
        &&& self.play_sounds == true
        &&& self.critical_sound is None
    }
}

impl Default for BehaviorConfig {
    fn default() -> (r: Self)
        ensures
            r.is_default(),
    {
        BehaviorConfig {
            close_on_escape: true,
            close_on_unfocus: true,
            dnd_enabled: false,
            play_sounds: true,
            critical_sound: None,
        }
    }
}

/// Popup notifications.
#[derive(Debug, Clone)]
pub struct PopupConfig {
    /// Anchor for popup notifications.
    pub anchor: String,
    /// Margin from the screen edge.
    pub margin: i32,
    /// Gap between stacked popups.
    pub gap: i32,
    /// Timeout for low urgency (ms).
    pub timeout_low: u64,
    /// Timeout for normal urgency (ms).
    pub timeout_normal: u64,
    /// Timeout for critical urgency (ms); 0 means no auto-dismiss.
    pub timeout_critical: u64,
    /// Most popups shown at once.
    pub max_visible: usize,
}

impl PopupConfig {
    /// Every field holds its default value.
    pub open spec fn is_default(self) -> bool {
        &&& self.anchor@ == "top-right"@
        &&& self.margin == 10
        &&& self.gap == 8
        &&& self.timeout_low == 3000
        &&& self.timeout_normal == 5000
        &&& self.timeout_critical == 0
        &&& self.max_visible == 5
    }
}

impl Default for PopupConfig {
    fn default() -> (r: Self)
        ensures
            r.is_default(),
    {
        PopupConfig {
            anchor: default_popup_anchor(),
            margin: default_popup_margin(),
            gap: default_popup_gap(),
            timeout_low: default_timeout_low(),
            timeout_normal: default_timeout_normal(),
            timeout_critical: default_timeout_critical(),
            max_visible: default_max_popups(),
        }
    }
}

/// Slide animation of the panel.
#[derive(Debug, Clone)]
pub struct AnimationConfig {
    pub enabled: bool,
    /// Animation kind (`type` in the file).
    pub animation_type: String,
    pub direction: String,
    pub duration: u64,
}

impl AnimationConfig {
    /// Every field holds its default value.
    pub open spec fn is_default(self) -> bool {
        &&& self.enabled == true
        &&& self.animation_type@ == "slide"@
        &&& self.direction@ == "down"@
        &&& self.duration == 200
    }
}

impl Default for AnimationConfig {
    fn default() -> (r: Self)
        ensures
            r.is_default(),
    {
        AnimationConfig {
            enabled: true,
            animation_type: default_animation_type(),
            direction: default_direction(),
            duration: default_duration(),
        }
    }
}

} // verus!
