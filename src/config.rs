//! User settings and their defaults.

use vstd::prelude::*;

verus! {

/// User settings.
#[derive(Debug, Clone)]
pub struct Config {
    pub general: GeneralConfig,
    pub ui: UiConfig,
}

#[derive(Debug, Clone)]
pub struct GeneralConfig {
    pub auto_refresh: bool,
    /// Seconds between automatic refreshes.
    pub refresh_interval: u32,
    pub default_filter: String,
    pub remote_host: Option<String>,
    pub docker_target: Option<String>,
}

#[derive(Debug, Clone, Copy)]
pub struct UiConfig {
    pub mouse_enabled: bool,
}

pub fn default_refresh_interval() -> (r: u32)
    ensures
        r == 5,
{
    5
}

pub fn default_filter() -> (r: String)
    ensures
        r@ == "all"@,
{
    String::from_str("all")
}

impl Default for GeneralConfig {
    fn default() -> (r: GeneralConfig)
        ensures
            !r.auto_refresh,
            r.refresh_interval == 5,
            r.default_filter@ == "all"@,
            r.remote_host.is_none(),
            r.docker_target.is_none(),
    {
        GeneralConfig {
            auto_refresh: false,
            refresh_interval: default_refresh_interval(),
            default_filter: default_filter(),
            remote_host: None,
            docker_target: None,
        }
    }
}

impl Default for UiConfig {
    fn default() -> (r: UiConfig)
        ensures
            !r.mouse_enabled,
    {
        UiConfig { mouse_enabled: false }
    }
}

impl Default for Config {
    fn default() -> (r: Config)
        ensures
            !r.general.auto_refresh,
            r.general.refresh_interval == 5,
            r.general.default_filter@ == "all"@,
            r.general.remote_host.is_none(),
            r.general.docker_target.is_none(),
            !r.ui.mouse_enabled,
    {
        Config { general: GeneralConfig::default(), ui: UiConfig::default() }
    }
}

/// Ticks between automatic refreshes for an interval in seconds: four per second, at least one.
pub open spec fn ticks_for_interval(seconds: u32) -> u32 {
    let t = seconds as int * 4;
    if t > u32::MAX as int {
        u32::MAX
    } else if t < 1 {
        1
    } else {
        t as u32
    }
}

impl GeneralConfig {
    /// Ticks between automatic refreshes (saturating, at least one).
    pub fn refresh_ticks(&self) -> (r: u32)
        ensures
            r == ticks_for_interval(self.refresh_interval),
            r >= 1,
    {
        let t = (self.refresh_interval as u64) * 4;
        if t > u32::MAX as u64 {
            u32::MAX
        } else if t < 1 {
            1
        } else {
            t as u32
        }
    }
}

} // verus!
