use suribrows::config::{hex_val, url_decode, Config, Rgba};
use suribrows::numbers::{
    parse_64ths, parse_i64, parse_u32, push_64ths, push_decimal, push_signed_decimal,
};
use suribrows::paths::{
    file_name, find_config_path, join_path, parent_dir, path_within, platform_config_dir,
    resources_dir_path, save_path,
};

#[test]
fn test_default_matches_original_values() {
    let c = Config::default();
    assert_eq!(c.general.default_url, "https://example.com");
    assert_eq!(c.general.window_title, "SuriBrows");
    assert_eq!(c.window.width, 1280);
    assert_eq!(c.window.height, 800);
    assert_eq!(c.chrome.height, 40);
    assert_eq!(c.chrome.font_size, 16 * 64);
    assert_eq!(c.search.engine_url, "https://duckduckgo.com/?q=");
    assert_eq!(c.servo.cache_size, 50_000);
    assert!(c.servo.user_agent.is_empty());
    assert!(c.privacy.enforce_tls);
    assert!(c.privacy.disable_webrtc);
}

#[test]
fn test_from_query_params_basic() {
    let config = Config::from_query_params("window_width=1920&window_height=1080");
    assert_eq!(config.window.width, 1920);
    assert_eq!(config.window.height, 1080);
    assert_eq!(config.chrome.height, 40);
}

#[test]
fn test_from_query_params_booleans() {
    let config = Config::from_query_params("enforce_tls=false&disable_webrtc=true");
    assert!(!config.privacy.enforce_tls);
    assert!(config.privacy.disable_webrtc);
}

#[test]
fn test_from_query_params_url_encoded() {
    let config =
        Config::from_query_params("search_engine_url=https%3A%2F%2Fgoogle.com%2F%3Fq%3D");
    assert_eq!(config.search.engine_url, "https://google.com/?q=");
}

#[test]
fn test_from_query_params_unknown_keys_ignored() {
    let config = Config::from_query_params("unknown_key=value&window_width=999");
    assert_eq!(config.window.width, 999);
}

#[test]
fn test_url_decode() {
    assert_eq!(url_decode("hello+world"), "hello world");
    assert_eq!(
        url_decode("https%3A%2F%2Fexample.com"),
        "https://example.com"
    );
    assert_eq!(url_decode("no+encoding+needed"), "no encoding needed");
}

#[test]
fn test_save_path_not_empty() {
    let dir = platform_config_dir(false, None, None, Some("/home/user"), '/');
    let path = save_path(dir.as_deref(), '/');
    assert!(!path.is_empty());
    assert!(!save_path(None, '/').is_empty());
}

#[test]
fn test_path_traversal_detection_logic() {
    let base = "/home/user/SuriBrows/resources";
    let valid_subpath = join_path(base, "preferences.json", '/');
    let malicious_resolved = "/etc/passwd";

    assert!(
        path_within(&valid_subpath, base, '/'),
        "Valid path should be within base: {} vs {}",
        valid_subpath,
        base
    );
    assert!(
        !path_within(malicious_resolved, base, '/'),
        "Malicious path should be detected as outside base: {} vs {}",
        malicious_resolved,
        base
    );

    let base = "C:\\SuriBrows\\resources";
    let valid_subpath = join_path(base, "preferences.json", '\\');
    assert!(path_within(&valid_subpath, base, '\\'));
    assert!(!path_within("C:\\Windows\\System32\\config\\SAM", base, '\\'));
}

#[test]
fn default_colours_and_lengths() {
    let c = Config::default();
    assert_eq!(c.chrome.text_left_pad, 12 * 64);
    assert_eq!(c.chrome.bar_margin, 6 * 64);
    assert_eq!(c.chrome.bar_h_pad, 8 * 64);
    assert_eq!(
        c.chrome.colors.background,
        Rgba { red: 170, green: 170, blue: 170, alpha: 1000 }
    );
    assert_eq!(c.chrome.colors.background_focused, Rgba::grey(230));
    assert_eq!(c.chrome.colors.text, Rgba::grey(930));
    assert_eq!(c.chrome.colors.cursor, Rgba::grey(1000));
    assert_eq!(c.chrome.colors.bar_background, Rgba::grey(130));
    assert_eq!(c.chrome.colors.bar_border, Rgba::grey(300));
    assert_eq!(c.servo.layout_threads, 0);
    assert!(c.servo.precache_shaders);
    assert!(c.privacy.disable_mime_sniff && c.privacy.disable_geolocation);
    assert!(c.privacy.disable_bluetooth && c.privacy.disable_notifications);
    let copy = c.clone();
    assert_eq!(copy.general.window_title, "SuriBrows");
    assert_eq!(copy.servo.cache_size, 50_000);
}

#[test]
fn hex_digits() {
    assert_eq!(hex_val(b'0'), Some(0));
    assert_eq!(hex_val(b'9'), Some(9));
    assert_eq!(hex_val(b'a'), Some(10));
    assert_eq!(hex_val(b'f'), Some(15));
    assert_eq!(hex_val(b'A'), Some(10));
    assert_eq!(hex_val(b'F'), Some(15));
    assert_eq!(hex_val(b'g'), None);
    assert_eq!(hex_val(b'/'), None);
    assert_eq!(hex_val(b':'), None);
}

#[test]
fn url_decode_edge_cases() {
    assert_eq!(url_decode(""), "");
    assert_eq!(url_decode("%41%62"), "Ab");
    assert_eq!(url_decode("a%zzb"), "ab");
    assert_eq!(url_decode("a%4"), "a");
    assert_eq!(url_decode("a%"), "a");
    assert_eq!(url_decode("%4gx"), "x");
    assert_eq!(url_decode("%e9"), "\u{e9}");
    assert_eq!(url_decode("\u{e9}"), "\u{c3}\u{a9}");
}

#[test]
fn query_sets_every_setting() {
    let config = Config::from_query_params(
        "default_url=https%3A%2F%2Fa.b&window_title=My+Title&chrome_height=50&font_size=14.5\
         &layout_threads=4&cache_size=-1&user_agent=UA%2F1&precache_shaders=false\
         &disable_mime_sniff=no&disable_geolocation=true&disable_bluetooth=false\
         &disable_notifications=TRUE",
    );
    assert_eq!(config.general.default_url, "https://a.b");
    assert_eq!(config.general.window_title, "My Title");
    assert_eq!(config.chrome.height, 50);
    assert_eq!(config.chrome.font_size, 14 * 64 + 32);
    assert_eq!(config.servo.layout_threads, 4);
    assert_eq!(config.servo.cache_size, -1);
    assert_eq!(config.servo.user_agent, "UA/1");
    assert!(!config.servo.precache_shaders);
    assert!(!config.privacy.disable_mime_sniff);
    assert!(config.privacy.disable_geolocation);
    assert!(!config.privacy.disable_bluetooth);
    assert!(!config.privacy.disable_notifications);
    assert!(config.privacy.enforce_tls);
}

#[test]
fn query_edge_cases() {
    let config = Config::from_query_params("");
    assert_eq!(config.window.width, 1280);
    let config = Config::from_query_params("window_width=abc&window_height=&&=5");
    assert_eq!(config.window.width, 1280);
    assert_eq!(config.window.height, 800);
    let config = Config::from_query_params("window_width=1&window_width=2");
    assert_eq!(config.window.width, 2);
    let config = Config::from_query_params("window_title");
    assert_eq!(config.general.window_title, "");
    let config = Config::from_query_params("window_title=a=b");
    assert_eq!(config.general.window_title, "a=b");
    let config = Config::from_query_params("window_width=4294967296");
    assert_eq!(config.window.width, 1280);
    let config = Config::from_query_params("window_width=%2B7");
    assert_eq!(config.window.width, 7);
}

#[test]
fn whole_numbers_are_read_in_decimal() {
    assert_eq!(parse_u32("0"), Some(0));
    assert_eq!(parse_u32("007"), Some(7));
    assert_eq!(parse_u32("+12"), Some(12));
    assert_eq!(parse_u32("4294967295"), Some(4294967295));
    assert_eq!(parse_u32("4294967296"), None);
    assert_eq!(parse_u32(""), None);
    assert_eq!(parse_u32("+"), None);
    assert_eq!(parse_u32("-1"), None);
    assert_eq!(parse_u32("1 "), None);
    assert_eq!(parse_u32("1a"), None);
    assert_eq!(parse_i64("-9223372036854775808"), Some(i64::MIN));
    assert_eq!(parse_i64("9223372036854775807"), Some(i64::MAX));
    assert_eq!(parse_i64("9223372036854775808"), None);
    assert_eq!(parse_i64("-9223372036854775809"), None);
    assert_eq!(parse_i64("+5"), Some(5));
    assert_eq!(parse_i64("-0"), Some(0));
    assert_eq!(parse_i64("-"), None);
    assert_eq!(parse_i64("--1"), None);
    assert_eq!(parse_i64(""), None);
}

#[test]
fn lengths_are_read_in_64ths() {
    assert_eq!(parse_64ths("16"), Some(1024));
    assert_eq!(parse_64ths("14.5"), Some(928));
    assert_eq!(parse_64ths("+0.25"), Some(16));
    assert_eq!(parse_64ths(".5"), Some(32));
    assert_eq!(parse_64ths("5."), Some(320));
    assert_eq!(parse_64ths("0.015625"), Some(1));
    assert_eq!(parse_64ths("0.0156249999"), Some(0));
    assert_eq!(parse_64ths("0.1"), Some(6));
    assert_eq!(parse_64ths("67108863.99"), Some(4294967295));
    assert_eq!(parse_64ths("67108864"), None);
    assert_eq!(parse_64ths("."), None);
    assert_eq!(parse_64ths(""), None);
    assert_eq!(parse_64ths("1e1"), None);
    assert_eq!(parse_64ths("-1"), None);
    assert_eq!(parse_64ths("1.2.3"), None);
}

#[test]
fn paths_are_joined_and_split() {
    assert_eq!(join_path("/a", "b", '/'), "/a/b");
    assert_eq!(join_path("/a/", "b", '/'), "/a/b");
    assert_eq!(join_path("", "b", '/'), "b");
    assert_eq!(join_path("C:\\x", "y", '\\'), "C:\\x\\y");
    assert_eq!(parent_dir("/a/b", '/'), Some("/a".to_string()));
    assert_eq!(parent_dir("/a", '/'), Some("/".to_string()));
    assert_eq!(parent_dir("/", '/'), None);
    assert_eq!(parent_dir("a", '/'), None);
    assert_eq!(file_name("/a/b.txt", '/'), "b.txt");
    assert_eq!(file_name("b.txt", '/'), "b.txt");
    assert_eq!(file_name("/a/", '/'), "");
}

#[test]
fn paths_are_compared_by_whole_names() {
    assert!(path_within("/a/b", "/a/b", '/'));
    assert!(path_within("/a/b/c", "/a/b/", '/'));
    assert!(path_within("/a//b/c", "/a/b", '/'));
    assert!(!path_within("/a/bc", "/a/b", '/'));
    assert!(!path_within("/a", "/a/b", '/'));
    assert!(!path_within("a/b", "/a/b", '/'));
    assert!(path_within("/anything", "/", '/'));
    assert!(path_within("x", "", '/'));
}

#[test]
fn settings_directory_of_each_platform() {
    assert_eq!(
        platform_config_dir(false, None, Some("/x/cfg"), Some("/home/u"), '/'),
        Some("/x/cfg/suribrows".to_string())
    );
    assert_eq!(
        platform_config_dir(false, Some("ignored"), None, Some("/home/u"), '/'),
        Some("/home/u/.config/suribrows".to_string())
    );
    assert_eq!(platform_config_dir(false, None, None, None, '/'), None);
    assert_eq!(
        platform_config_dir(true, Some("C:\\Users\\u\\AppData"), None, None, '\\'),
        Some("C:\\Users\\u\\AppData\\SuriBrows".to_string())
    );
    assert_eq!(platform_config_dir(true, None, Some("/x"), Some("/h"), '\\'), None);
    assert_eq!(save_path(Some("/x/cfg/suribrows"), '/'), "/x/cfg/suribrows/config.toml");
    assert_eq!(save_path(None, '/'), "./config.toml");
}

#[test]
fn settings_file_is_looked_for_in_order() {
    assert_eq!(
        find_config_path(Some("/etc/my.toml"), Some("/opt/app"), Some("/h/.config/suribrows"), '/'),
        vec![
            "/etc/my.toml".to_string(),
            "/opt/app/config.toml".to_string(),
            "/h/.config/suribrows/config.toml".to_string(),
            "config.toml".to_string(),
        ]
    );
    assert_eq!(
        find_config_path(None, None, None, '/'),
        vec!["config.toml".to_string()]
    );
}

#[test]
fn resources_are_looked_for_in_order() {
    assert_eq!(
        resources_dir_path(
            Some("/srv/res"),
            Some("/work/proj/target/debug/suribrows"),
            Some("/cwd"),
            None,
            '/'
        ),
        vec![
            "/srv/res".to_string(),
            "/work/proj/target/debug/resources".to_string(),
            "/work/proj/resources".to_string(),
            "/cwd/resources".to_string(),
        ]
    );
    assert_eq!(
        resources_dir_path(None, Some("/opt/app/suribrows"), Some("/cwd"), Some("filters"), '/'),
        vec![
            "/opt/app/resources/filters".to_string(),
            "/cwd/resources/filters".to_string(),
        ]
    );
    assert_eq!(
        resources_dir_path(Some("/srv/res"), None, None, Some("filters"), '/'),
        vec!["/srv/res/filters".to_string()]
    );
    assert!(resources_dir_path(None, None, None, None, '/').is_empty());
}

fn written_64ths(value: u32) -> String {
    let mut out = String::from("<");
    push_64ths(&mut out, value);
    out
}

#[test]
fn lengths_are_written_in_decimal() {
    assert_eq!(written_64ths(0), "<0");
    assert_eq!(written_64ths(1024), "<16");
    assert_eq!(written_64ths(928), "<14.5");
    assert_eq!(written_64ths(1), "<0.015625");
    assert_eq!(written_64ths(4), "<0.0625");
    assert_eq!(written_64ths(63), "<0.984375");
    assert_eq!(written_64ths(64 * 7 + 16), "<7.25");
    assert_eq!(written_64ths(u32::MAX), "<67108863.984375");
}

#[test]
fn written_lengths_are_read_back() {
    for value in (0..=256).chain([1000, 65535, 1 << 31, u32::MAX - 1, u32::MAX]) {
        let text = written_64ths(value);
        assert_eq!(parse_64ths(&text[1..]), Some(value), "{}", text);
    }
}

#[test]
fn whole_numbers_are_written_in_decimal() {
    let mut out = String::new();
    push_decimal(&mut out, 0);
    out.push(' ');
    push_decimal(&mut out, 1280);
    out.push(' ');
    push_decimal(&mut out, u64::MAX);
    out.push(' ');
    push_signed_decimal(&mut out, -3);
    out.push(' ');
    push_signed_decimal(&mut out, i64::MIN);
    out.push(' ');
    push_signed_decimal(&mut out, i64::MAX);
    assert_eq!(
        out,
        "0 1280 18446744073709551615 -3 -9223372036854775808 9223372036854775807"
    );
}
