//! Global configuration and its defaults.

use vstd::prelude::*;

verus! {

fn default_theme() -> (r: String)
    ensures
        r@ == "default"@,
{
    "default".to_string()
}

fn default_animation_duration() -> (r: u64)
    ensures
        r == 200,
{
    200
}

/// Global configuration.
#[derive(Debug, Clone)]
pub struct Config {
    pub general: GeneralConfig,
}

impl Config {
    /// Every field holds its default value.
    pub open spec fn is_default(self) -> bool {
        &&& self.general.is_default()
    }
}

impl Default for Config {
    fn default() -> (r: Self)
        ensures
            r.is_default(),
    {
        Config {
            general: GeneralConfig::default(),
        }
    }
}

/// General settings.
#[derive(Debug, Clone)]
pub struct GeneralConfig {
    pub theme: String,
    pub animation_duration: u64,
}

impl GeneralConfig {
    /// Every field holds its default value.
    pub open spec fn is_default(self) -> bool {
        &&& self.theme@ == "default"@
        &&& self.animation_duration == 200
    }
}

impl Default for GeneralConfig {
    fn default() -> (r: Self)
        ensures
            r.is_default(),
    {
        GeneralConfig {
            theme: default_theme(),
            animation_duration: default_animation_duration(),
        }
    }
}

} // verus!
