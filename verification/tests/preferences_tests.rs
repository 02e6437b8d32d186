use suribrows::config::{PrivacyConfig, ServoConfig};
use suribrows::preferences::{build_servo_preferences, Preferences, DEFAULT_CPUS};

fn default_prefs() -> Preferences {
    build_servo_preferences(DEFAULT_CPUS, &ServoConfig::default(), &PrivacyConfig::default())
}

#[test]
fn test_preferences_layout_threads_bounded() {
    let prefs = default_prefs();
    assert!(prefs.layout_threads >= 1, "layout_threads should be >= 1");
    assert!(prefs.layout_threads <= 8, "layout_threads should be <= 8");
}

#[test]
fn test_preferences_tls_enforced() {
    let prefs = default_prefs();
    assert!(prefs.network_enforce_tls_enabled);
}

#[test]
fn test_preferences_mime_sniff_disabled() {
    let prefs = default_prefs();
    assert!(!prefs.network_mime_sniff);
}

#[test]
fn test_preferences_geolocation_disabled() {
    let prefs = default_prefs();
    assert!(!prefs.dom_geolocation_enabled);
}

#[test]
fn test_preferences_bluetooth_disabled() {
    let prefs = default_prefs();
    assert!(!prefs.dom_bluetooth_enabled);
}

#[test]
fn test_preferences_webrtc_disabled() {
    let prefs = default_prefs();
    assert!(!prefs.dom_webrtc_enabled);
}

#[test]
fn test_preferences_notification_disabled() {
    let prefs = default_prefs();
    assert!(!prefs.dom_notification_enabled);
}

#[test]
fn test_preferences_user_agent_set() {
    let prefs = default_prefs();
    assert!(
        prefs.user_agent.contains("Chrome"),
        "UA should contain Chrome"
    );
    assert!(!prefs.user_agent.is_empty(), "UA should not be empty");
}

#[test]
fn test_preferences_cache_size() {
    let prefs = default_prefs();
    assert_eq!(prefs.network_http_cache_size, 50_000);
}

#[test]
fn test_preferences_precache_shaders() {
    let prefs = default_prefs();
    assert!(prefs.gfx_precache_shaders);
}

#[test]
fn test_preferences_webrender_workers_bounded() {
    let prefs = default_prefs();
    assert!(prefs.threadpools_webrender_workers_max >= 2);
    assert!(prefs.threadpools_webrender_workers_max <= 8);
}

#[test]
fn test_preferences_custom_layout_threads() {
    let servo_cfg = ServoConfig {
        layout_threads: 4,
        ..Default::default()
    };
    let prefs = build_servo_preferences(DEFAULT_CPUS, &servo_cfg, &PrivacyConfig::default());
    assert_eq!(prefs.layout_threads, 4);
}

#[test]
fn test_preferences_custom_user_agent() {
    let servo_cfg = ServoConfig {
        user_agent: "MyBrowser/1.0".to_string(),
        ..Default::default()
    };
    let prefs = build_servo_preferences(DEFAULT_CPUS, &servo_cfg, &PrivacyConfig::default());
    assert_eq!(prefs.user_agent, "MyBrowser/1.0");
}

#[test]
fn test_preferences_privacy_toggles_off() {
    let privacy_cfg = PrivacyConfig {
        enforce_tls: false,
        disable_mime_sniff: false,
        disable_geolocation: false,
        disable_bluetooth: false,
        disable_notifications: false,
        disable_webrtc: false,
    };
    let prefs = build_servo_preferences(DEFAULT_CPUS, &ServoConfig::default(), &privacy_cfg);
    assert!(!prefs.network_enforce_tls_enabled);
    assert!(prefs.network_mime_sniff);
    assert!(prefs.dom_geolocation_enabled);
    assert!(prefs.dom_bluetooth_enabled);
    assert!(prefs.dom_notification_enabled);
    assert!(prefs.dom_webrtc_enabled);
}

#[test]
fn thread_pools_follow_the_processors() {
    let pools = |cpus: usize| {
        let p = build_servo_preferences(cpus, &ServoConfig::default(), &PrivacyConfig::default());
        (
            p.layout_threads,
            p.threadpools_async_runtime_workers_max,
            p.threadpools_image_cache_workers_max,
            p.threadpools_webrender_workers_max,
            p.threadpools_resource_workers_max,
        )
    };
    assert_eq!(pools(1), (1, 2, 1, 2, 1));
    assert_eq!(pools(4), (4, 8, 4, 2, 4));
    assert_eq!(pools(6), (6, 12, 6, 3, 6));
    assert_eq!(pools(8), (8, 16, 8, 4, 8));
    assert_eq!(pools(12), (8, 16, 8, 6, 8));
    assert_eq!(pools(64), (8, 16, 8, 8, 8));
    assert_eq!(pools(usize::MAX), (8, 16, 8, 8, 8));
    assert_eq!(pools(0), (0, 0, 0, 2, 0));
}

#[test]
fn configured_values_are_bounded() {
    let cfg = ServoConfig { layout_threads: 99, cache_size: -5, ..Default::default() };
    let prefs = build_servo_preferences(4, &cfg, &PrivacyConfig::default());
    assert_eq!(prefs.layout_threads, 8);
    assert_eq!(prefs.network_http_cache_size, 0);
    let cfg = ServoConfig { layout_threads: -2, precache_shaders: false, ..Default::default() };
    let prefs = build_servo_preferences(4, &cfg, &PrivacyConfig::default());
    assert_eq!(prefs.layout_threads, -2);
    assert!(!prefs.gfx_precache_shaders);
    assert_eq!(
        default_prefs().user_agent,
        "Mozilla/5.0 (X11; Linux x86_64) AppleWebKit/537.36 (KHTML, like Gecko) Chrome/120.0.0.0 Safari/537.36"
    );
}
