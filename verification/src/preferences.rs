//! The engine's preferences, from the settings and the number of processors.

use crate::config::{PrivacyConfig, ServoConfig};
use vstd::prelude::*;
use vstd::string::StringExecFns;

verus! {

/// The user agent that is sent where none is configured.
pub const DEFAULT_USER_AGENT: &'static str =
    "Mozilla/5.0 (X11; Linux x86_64) AppleWebKit/537.36 (KHTML, like Gecko) Chrome/120.0.0.0 Safari/537.36";

/// The number of processors that is taken where the machine does not tell.
pub const DEFAULT_CPUS: usize = 4;

/// The preferences that the engine is started with.
#[derive(Debug)]
pub struct Preferences {
    pub layout_threads: i64,
    pub threadpools_async_runtime_workers_max: i64,
    pub threadpools_image_cache_workers_max: i64,
    pub threadpools_webrender_workers_max: i64,
    pub threadpools_resource_workers_max: i64,
    pub network_http_cache_size: u64,
    pub gfx_precache_shaders: bool,
    pub user_agent: String,
    pub network_enforce_tls_enabled: bool,
    pub network_mime_sniff: bool,
    pub dom_geolocation_enabled: bool,
    pub dom_bluetooth_enabled: bool,
    pub dom_notification_enabled: bool,
    pub dom_webrtc_enabled: bool,
}

/// The lesser of the two.
pub open spec fn at_most(value: int, limit: int) -> int {
    if value <= limit {
        value
    } else {
        limit
    }
}

/// `value` brought into the range from `low` to `high`.
pub open spec fn clamped(value: int, low: int, high: int) -> int {
    if value < low {
        low
    } else if value > high {
        high
    } else {
        value
    }
}

/// Whether `prefs` are the preferences for `cpus` processors and the two sections of the
/// settings: thread pools sized by the processors within fixed bounds, the cache size not
/// below zero, the configured user agent or the default one, and each tracking interface
/// on unless the settings switch it off.
pub open spec fn preferences_for(
    prefs: Preferences,
    cpus: usize,
    servo_cfg: ServoConfig,
    privacy_cfg: PrivacyConfig,
) -> bool {
    &&& prefs.layout_threads == if servo_cfg.layout_threads == 0 {
        at_most(cpus as int, 8)
    } else {
        at_most(servo_cfg.layout_threads as int, 8)
    }
    &&& prefs.threadpools_async_runtime_workers_max == at_most(cpus * 2, 16)
    &&& prefs.threadpools_image_cache_workers_max == at_most(cpus as int, 8)
    &&& prefs.threadpools_webrender_workers_max == clamped(cpus as int / 2, 2, 8)
    &&& prefs.threadpools_resource_workers_max == at_most(cpus as int, 8)
    &&& prefs.network_http_cache_size == if servo_cfg.cache_size < 0 {
        0
    } else {
        servo_cfg.cache_size as int
    }
    &&& prefs.gfx_precache_shaders == servo_cfg.precache_shaders
    &&& prefs.user_agent@ == if servo_cfg.user_agent@.len() == 0 {
        DEFAULT_USER_AGENT@
    } else {
        servo_cfg.user_agent@
    }
    &&& prefs.network_enforce_tls_enabled == privacy_cfg.enforce_tls
    &&& prefs.network_mime_sniff == !privacy_cfg.disable_mime_sniff
    &&& prefs.dom_geolocation_enabled == !privacy_cfg.disable_geolocation
    &&& prefs.dom_bluetooth_enabled == !privacy_cfg.disable_bluetooth
    &&& prefs.dom_notification_enabled == !privacy_cfg.disable_notifications
    &&& prefs.dom_webrtc_enabled == !privacy_cfg.disable_webrtc
}

/// The lesser of the number of processors and `limit`.
fn capped(cpus: usize, limit: u8) -> (r: i64)
    ensures
        r == at_most(cpus as int, limit as int),
{
    if cpus <= limit as usize {
        cpus as i64
    } else {
        limit as i64
    }
}

/// The engine's preferences for a machine of `cpus` processors.
pub fn build_servo_preferences(
    cpus: usize,
    servo_cfg: &ServoConfig,
    privacy_cfg: &PrivacyConfig,
) -> (prefs: Preferences)
    ensures
        preferences_for(prefs, cpus, *servo_cfg, *privacy_cfg),
{
    let layout_threads = if servo_cfg.layout_threads == 0 {
        capped(cpus, 8)
    } else if servo_cfg.layout_threads <= 8 {
        servo_cfg.layout_threads
    } else {
        8
    };
    let async_workers: i64 = if cpus >= 8 {
        16
    } else {
        (cpus * 2) as i64
    };
    let half = cpus / 2;
    let webrender_workers: i64 = if half < 2 {
        2
    } else if half > 8 {
        8
    } else {
        half as i64
    };
    let cache_size: u64 = if servo_cfg.cache_size < 0 {
        0
    } else {
        servo_cfg.cache_size as u64
    };
    let user_agent = if servo_cfg.user_agent.as_str().is_empty() {
        String::from_str(DEFAULT_USER_AGENT)
    } else {
        servo_cfg.user_agent.clone()
    };
    Preferences {
        layout_threads,
        threadpools_async_runtime_workers_max: async_workers,
        threadpools_image_cache_workers_max: capped(cpus, 8),
        threadpools_webrender_workers_max: webrender_workers,
        threadpools_resource_workers_max: capped(cpus, 8),
        network_http_cache_size: cache_size,
        gfx_precache_shaders: servo_cfg.precache_shaders,
        user_agent,
        network_enforce_tls_enabled: privacy_cfg.enforce_tls,
        network_mime_sniff: !privacy_cfg.disable_mime_sniff,
        dom_geolocation_enabled: !privacy_cfg.disable_geolocation,
        dom_bluetooth_enabled: !privacy_cfg.disable_bluetooth,
        dom_notification_enabled: !privacy_cfg.disable_notifications,
        dom_webrtc_enabled: !privacy_cfg.disable_webrtc,
    }
}

} // verus!
