//! Settings of the browser, with the defaults that hold where nothing is configured.

use crate::numbers::{
    copy_chars, find_char, first_index, parse_64ths, parse_i64, parse_u32, parsed_64ths,
    parsed_i64, parsed_u32,
};
use crate::text::{push_char, same_text, string_from_chars};
use vstd::prelude::*;
use vstd::string::StringExecFns;
use vstd::utf8::encode_utf8;

verus! {

/// A colour, each channel in thousandths of full intensity.
#[derive(Debug, Clone, Copy, PartialEq, Eq)]
pub struct Rgba {
    pub red: u16,
    pub green: u16,
    pub blue: u16,
    pub alpha: u16,
}

impl Rgba {
    /// An opaque grey of the given level.
    pub open spec fn grey_of(level: u16) -> Rgba {
        Rgba { red: level, green: level, blue: level, alpha: 1000 }
    }

    /// An opaque grey of the given level.
    #[verifier::when_used_as_spec(grey_of)]
    pub fn grey(level: u16) -> (c: Rgba)
        ensures
            c == Rgba::grey_of(level),
    {
        Rgba { red: level, green: level, blue: level, alpha: 1000 }
    }
}

/// Everything that can be configured.
#[derive(Debug)]
pub struct Config {
    pub general: GeneralConfig,
    pub window: WindowConfig,
    pub chrome: ChromeConfig,
    pub search: SearchConfig,
    pub servo: ServoConfig,
    pub privacy: PrivacyConfig,
}

/// General settings of the application.
#[derive(Debug)]
pub struct GeneralConfig {
    pub default_url: String,
    pub window_title: String,
}

/// Size of the window in pixels.
#[derive(Debug, Clone, Copy)]
pub struct WindowConfig {
    pub width: u32,
    pub height: u32,
}

/// Looks of the chrome bar. Lengths but the bar's height are in 64ths of a pixel.
#[derive(Debug, Clone, Copy)]
pub struct ChromeConfig {
    /// Height of the bar in pixels.
    pub height: u32,
    pub font_size: u32,
    pub text_left_pad: u32,
    pub bar_margin: u32,
    pub bar_h_pad: u32,
    pub colors: ChromeColors,
}

/// The colours of the chrome bar.
#[derive(Debug, Clone, Copy)]
pub struct ChromeColors {
    pub background: Rgba,
    pub background_focused: Rgba,
    pub text: Rgba,
    pub cursor: Rgba,
    pub bar_background: Rgba,
    pub bar_border: Rgba,
}

/// The search engine.
#[derive(Debug)]
pub struct SearchConfig {
    pub engine_url: String,
}

/// Tuning of the engine.
#[derive(Debug)]
pub struct ServoConfig {
    /// Greatest number of layout threads; 0 lets the machine decide.
    pub layout_threads: i64,
    /// Size of the HTTP cache in bytes.
    pub cache_size: i64,
    /// The user agent; empty for the default one.
    pub user_agent: String,
    /// Whether the GPU shaders are compiled at startup.
    pub precache_shaders: bool,
}

/// Switches for privacy and security.
#[derive(Debug, Clone, Copy)]
pub struct PrivacyConfig {
    pub enforce_tls: bool,
    pub disable_mime_sniff: bool,
    pub disable_geolocation: bool,
    pub disable_bluetooth: bool,
    pub disable_notifications: bool,
    pub disable_webrtc: bool,
}

impl GeneralConfig {
    /// The settings hold their defaults.
    pub open spec fn is_default(self) -> bool {
        &&& self.default_url@ == "https://example.com"@
        &&& self.window_title@ == "SuriBrows"@
    }
}

impl Default for GeneralConfig {
    fn default() -> (c: Self)
        ensures
            c.is_default(),
    {
        GeneralConfig {
            default_url: String::from_str("https://example.com"),
            window_title: String::from_str("SuriBrows"),
        }
    }
}

impl WindowConfig {
    /// The settings hold their defaults.
    pub open spec fn is_default(self) -> bool {
        self == (WindowConfig { width: 1280, height: 800 })
    }
}

impl Default for WindowConfig {
    fn default() -> (c: Self)
        ensures
            c.is_default(),
    {
        WindowConfig { width: 1280, height: 800 }
    }
}

impl ChromeColors {
    /// The settings hold their defaults.
    pub open spec fn is_default(self) -> bool {
        self == (ChromeColors {
            background: Rgba::grey_of(170),
            background_focused: Rgba::grey_of(230),
            text: Rgba::grey_of(930),
            cursor: Rgba::grey_of(1000),
            bar_background: Rgba::grey_of(130),
            bar_border: Rgba::grey_of(300),
        })
    }
}

impl Default for ChromeColors {
    fn default() -> (c: Self)
        ensures
            c.is_default(),
    {
        ChromeColors {
            background: Rgba::grey(170),
            background_focused: Rgba::grey(230),
            text: Rgba::grey(930),
            cursor: Rgba::grey(1000),
            bar_background: Rgba::grey(130),
            bar_border: Rgba::grey(300),
        }
    }
}

impl ChromeConfig {
    /// The settings hold their defaults: a bar of 40 pixels, a font of 16, a text padding of
    /// 12, a margin of 6 and a horizontal padding of 8, and the default colours.
    pub open spec fn is_default(self) -> bool {
        &&& self.height == 40
        &&& self.font_size == 16 * 64
        &&& self.text_left_pad == 12 * 64
        &&& self.bar_margin == 6 * 64
        &&& self.bar_h_pad == 8 * 64
        &&& self.colors.is_default()
    }
}

impl Default for ChromeConfig {
    fn default() -> (c: Self)
        ensures
            c.is_default(),
    {
        ChromeConfig {
            height: 40,
            font_size: 16 * 64,
            text_left_pad: 12 * 64,
            bar_margin: 6 * 64,
            bar_h_pad: 8 * 64,
            colors: ChromeColors::default(),
        }
    }
}

impl SearchConfig {
    /// The settings hold their defaults.
    pub open spec fn is_default(self) -> bool {
        self.engine_url@ == "https://duckduckgo.com/?q="@
    }
}

impl Default for SearchConfig {
    fn default() -> (c: Self)
        ensures
            c.is_default(),
    {
        SearchConfig { engine_url: String::from_str("https://duckduckgo.com/?q=") }
    }
}

impl ServoConfig {
    /// The settings hold their defaults.
    pub open spec fn is_default(self) -> bool {
        &&& self.layout_threads == 0
        &&& self.cache_size == 50_000
        &&& self.user_agent@ == Seq::<char>::empty()
        &&& self.precache_shaders
    }
}

impl Default for ServoConfig {
    fn default() -> (c: Self)
        ensures
            c.is_default(),
    {
        ServoConfig {
            layout_threads: 0,
            cache_size: 50_000,
            user_agent: String::new(),
            precache_shaders: true,
        }
    }
}

impl PrivacyConfig {
    /// The settings hold their defaults: every protection is on.
    pub open spec fn is_default(self) -> bool {
        self == (PrivacyConfig {
            enforce_tls: true,
            disable_mime_sniff: true,
            disable_geolocation: true,
            disable_bluetooth: true,
            disable_notifications: true,
            disable_webrtc: true,
        })
    }
}

impl Default for PrivacyConfig {
    fn default() -> (c: Self)
        ensures
            c.is_default(),
    {
        PrivacyConfig {
            enforce_tls: true,
            disable_mime_sniff: true,
            disable_geolocation: true,
            disable_bluetooth: true,
            disable_notifications: true,
            disable_webrtc: true,
        }
    }
}

impl Config {
    /// Every section holds its defaults.
    pub open spec fn is_default(self) -> bool {
        &&& self.general.is_default()
        &&& self.window.is_default()
        &&& self.chrome.is_default()
        &&& self.search.is_default()
        &&& self.servo.is_default()
        &&& self.privacy.is_default()
    }
}

impl Clone for GeneralConfig {
    fn clone(&self) -> (c: Self)
        ensures
            c == *self,
    {
        GeneralConfig {
            default_url: self.default_url.clone(),
            window_title: self.window_title.clone(),
        }
    }
}

impl Clone for SearchConfig {
    fn clone(&self) -> (c: Self)
        ensures
            c == *self,
    {
        SearchConfig { engine_url: self.engine_url.clone() }
    }
}

impl Clone for ServoConfig {
    fn clone(&self) -> (c: Self)
        ensures
            c == *self,
    {
        ServoConfig {
            layout_threads: self.layout_threads,
            cache_size: self.cache_size,
            user_agent: self.user_agent.clone(),
            precache_shaders: self.precache_shaders,
        }
    }
}

impl Clone for Config {
    fn clone(&self) -> (c: Self)
        ensures
            c == *self,
    {
        Config {
            general: self.general.clone(),
            window: self.window,
            chrome: self.chrome,
            search: self.search.clone(),
            servo: self.servo.clone(),
            privacy: self.privacy,
        }
    }
}

impl Default for Config {
    fn default() -> (c: Self)
        ensures
            c.is_default(),
    {
        Config {
            general: GeneralConfig::default(),
            window: WindowConfig::default(),
            chrome: ChromeConfig::default(),
            search: SearchConfig::default(),
            servo: ServoConfig::default(),
            privacy: PrivacyConfig::default(),
        }
    }
}

/// The settings as a value.
pub struct ConfigView {
    pub default_url: Seq<char>,
    pub window_title: Seq<char>,
    pub window: WindowConfig,
    pub chrome: ChromeConfig,
    pub engine_url: Seq<char>,
    pub layout_threads: i64,
    pub cache_size: i64,
    pub user_agent: Seq<char>,
    pub precache_shaders: bool,
    pub privacy: PrivacyConfig,
}

impl View for Config {
    type V = ConfigView;

    open spec fn view(&self) -> ConfigView {
        ConfigView {
            default_url: self.general.default_url@,
            window_title: self.general.window_title@,
            window: self.window,
            chrome: self.chrome,
            engine_url: self.search.engine_url@,
            layout_threads: self.servo.layout_threads,
            cache_size: self.servo.cache_size,
            user_agent: self.servo.user_agent@,
            precache_shaders: self.servo.precache_shaders,
            privacy: self.privacy,
        }
    }
}

/// The default settings as a value.
pub open spec fn default_settings() -> ConfigView {
    ConfigView {
        default_url: "https://example.com"@,
        window_title: "SuriBrows"@,
        window: WindowConfig { width: 1280, height: 800 },
        chrome: ChromeConfig {
            height: 40,
            font_size: 1024,
            text_left_pad: 768,
            bar_margin: 384,
            bar_h_pad: 512,
            colors: ChromeColors {
                background: Rgba::grey_of(170),
                background_focused: Rgba::grey_of(230),
                text: Rgba::grey_of(930),
                cursor: Rgba::grey_of(1000),
                bar_background: Rgba::grey_of(130),
                bar_border: Rgba::grey_of(300),
            },
        },
        engine_url: "https://duckduckgo.com/?q="@,
        layout_threads: 0,
        cache_size: 50_000,
        user_agent: Seq::empty(),
        precache_shaders: true,
        privacy: PrivacyConfig {
            enforce_tls: true,
            disable_mime_sniff: true,
            disable_geolocation: true,
            disable_bluetooth: true,
            disable_notifications: true,
            disable_webrtc: true,
        },
    }
}

/// The value of a hexadecimal digit, or `None` for any other byte.
pub open spec fn hex_value(b: u8) -> Option<u8> {
    if 0x30 <= b <= 0x39 {
        Some((b - 0x30) as u8)
    } else if 0x61 <= b <= 0x66 {
        Some((b - 0x61 + 10) as u8)
    } else if 0x41 <= b <= 0x46 {
        Some((b - 0x41 + 10) as u8)
    } else {
        None
    }
}

/// The text that a query value stands for: a plus sign is a space, a percent sign with two
/// hexadecimal digits behind it is the character of that number, a percent sign with
/// anything else behind it goes away with the next two bytes, and every other byte is the
/// character of its number.
pub open spec fn decoded(bytes: Seq<u8>) -> Seq<char>
    decreases bytes.len(),
{
    if bytes.len() == 0 {
        Seq::empty()
    } else if bytes[0] == 0x2B {
        seq![' '] + decoded(bytes.skip(1))
    } else if bytes[0] == 0x25 {
        if bytes.len() >= 3 {
            match (hex_value(bytes[1]), hex_value(bytes[2])) {
                (Some(h), Some(l)) => seq![(h * 16 + l) as u8 as char] + decoded(bytes.skip(3)),
                _ => decoded(bytes.skip(3)),
            }
        } else {
            Seq::empty()
        }
    } else {
        seq![bytes[0] as char] + decoded(bytes.skip(1))
    }
}

/// The settings with the one named `key` set to `value`; a key that names none, or a value
/// that is no number where one is needed, leaves them as they are.
pub open spec fn with_setting(c: ConfigView, key: Seq<char>, value: Seq<char>) -> ConfigView {
    if key == "default_url"@ {
        ConfigView { default_url: value, ..c }
    } else if key == "window_title"@ {
        ConfigView { window_title: value, ..c }
    } else if key == "window_width"@ {
        match parsed_u32(value) {
            Some(v) => ConfigView { window: WindowConfig { width: v, ..c.window }, ..c },
            None => c,
        }
    } else if key == "window_height"@ {
        match parsed_u32(value) {
            Some(v) => ConfigView { window: WindowConfig { height: v, ..c.window }, ..c },
            None => c,
        }
    } else if key == "chrome_height"@ {
        match parsed_u32(value) {
            Some(v) => ConfigView { chrome: ChromeConfig { height: v, ..c.chrome }, ..c },
            None => c,
        }
    } else if key == "font_size"@ {
        match parsed_64ths(value) {
            Some(v) => ConfigView { chrome: ChromeConfig { font_size: v, ..c.chrome }, ..c },
            None => c,
        }
    } else if key == "search_engine_url"@ {
        ConfigView { engine_url: value, ..c }
    } else if key == "layout_threads"@ {
        match parsed_i64(value) {
            Some(v) => ConfigView { layout_threads: v, ..c },
            None => c,
        }
    } else if key == "cache_size"@ {
        match parsed_i64(value) {
            Some(v) => ConfigView { cache_size: v, ..c },
            None => c,
        }
    } else if key == "user_agent"@ {
        ConfigView { user_agent: value, ..c }
    } else if key == "precache_shaders"@ {
        ConfigView { precache_shaders: value == "true"@, ..c }
    } else if key == "enforce_tls"@ {
        ConfigView { privacy: PrivacyConfig { enforce_tls: value == "true"@, ..c.privacy }, ..c }
    } else if key == "disable_mime_sniff"@ {
        ConfigView {
            privacy: PrivacyConfig { disable_mime_sniff: value == "true"@, ..c.privacy },
            ..c
        }
    } else if key == "disable_geolocation"@ {
        ConfigView {
            privacy: PrivacyConfig { disable_geolocation: value == "true"@, ..c.privacy },
            ..c
        }
    } else if key == "disable_bluetooth"@ {
        ConfigView {
            privacy: PrivacyConfig { disable_bluetooth: value == "true"@, ..c.privacy },
            ..c
        }
    } else if key == "disable_notifications"@ {
        ConfigView {
            privacy: PrivacyConfig { disable_notifications: value == "true"@, ..c.privacy },
            ..c
        }
    } else if key == "disable_webrtc"@ {
        ConfigView {
            privacy: PrivacyConfig { disable_webrtc: value == "true"@, ..c.privacy },
            ..c
        }
    } else {
        c
    }
}

/// The settings with the one that the pair `key=value` names set; the value is decoded, and
/// is empty where the pair has no equals sign.
pub open spec fn with_pair(c: ConfigView, pair: Seq<char>) -> ConfigView {
    let at = first_index(pair, '=') as int;
    let raw = if at < pair.len() {
        pair.skip(at + 1)
    } else {
        Seq::empty()
    };
    with_setting(c, pair.take(at), decoded(encode_utf8(raw)))
}

/// The settings with those that the pairs of `query` name set in turn; the pairs are
/// separated by `&`.
pub open spec fn with_query(c: ConfigView, query: Seq<char>) -> ConfigView
    decreases query.len(),
{
    let at = first_index(query, '&') as int;
    if at < query.len() {
        with_query(with_pair(c, query.take(at)), query.skip(at + 1))
    } else {
        with_pair(c, query)
    }
}

/// The value of a hexadecimal digit.
pub fn hex_val(b: u8) -> (r: Option<u8>)
    ensures
        r == hex_value(b),
{
    if 0x30 <= b && b <= 0x39 {
        Some(b - 0x30)
    } else if 0x61 <= b && b <= 0x66 {
        Some(b - 0x61 + 10)
    } else if 0x41 <= b && b <= 0x46 {
        Some(b - 0x41 + 10)
    } else {
        None
    }
}

/// Decodes a query value.
pub fn url_decode(s: &str) -> (r: String)
    ensures
        r@ == decoded(encode_utf8(s@)),
{
    let bytes = s.as_bytes();
    let n = bytes.len();
    let mut result = String::new();
    let mut i: usize = 0;
    assert(bytes@.skip(0) =~= bytes@);
    while i < n
        invariant
            i <= n == bytes.len(),
            bytes@ == encode_utf8(s@),
            decoded(bytes@) == result@ + decoded(bytes@.skip(i as int)),
        decreases n - i,
    {
        let b = bytes[i];
        let ghost rest = bytes@.skip(i as int);
        let ghost before = result@;
        assert(rest[0] == b);
        if b == 0x2B {
            push_char(&mut result, ' ');
            assert(rest.skip(1) =~= bytes@.skip(i + 1));
            assert(result@ + decoded(bytes@.skip(i + 1)) =~= before + decoded(rest));
            i = i + 1;
        } else if b == 0x25 {
            if n - i >= 3 {
                assert(rest[1] == bytes@[i + 1] && rest[2] == bytes@[i + 2]);
                assert(rest.skip(3) =~= bytes@.skip(i + 3));
                match (hex_val(bytes[i + 1]), hex_val(bytes[i + 2])) {
                    (Some(h), Some(l)) => {
                        push_char(&mut result, (h * 16 + l) as char);
                        assert(result@ + decoded(bytes@.skip(i + 3)) =~= before + decoded(rest));
                    },
                    _ => {},
                }
                i = i + 3;
            } else {
                assert(bytes@.skip(n as int) =~= Seq::<u8>::empty());
                assert(result@ + decoded(bytes@.skip(n as int)) =~= before + decoded(rest));
                i = n;
            }
        } else {
            push_char(&mut result, b as char);
            assert(rest.skip(1) =~= bytes@.skip(i + 1));
            assert(result@ + decoded(bytes@.skip(i + 1)) =~= before + decoded(rest));
            i = i + 1;
        }
    }
    assert(bytes@.skip(n as int) =~= Seq::<u8>::empty());
    assert(result@ + Seq::<char>::empty() =~= result@);
    result
}

/// Sets the setting named `key` to `value`.
fn set_option(config: &mut Config, key: &str, value: String)
    ensures
        final(config)@ == with_setting(old(config)@, key@, value@),
{
    if same_text(key, "default_url") {
        config.general.default_url = value;
    } else if same_text(key, "window_title") {
        config.general.window_title = value;
    } else if same_text(key, "window_width") {
        match parse_u32(value.as_str()) {
            Some(v) => {
                config.window.width = v;
            },
            None => {},
        }
    } else if same_text(key, "window_height") {
        match parse_u32(value.as_str()) {
            Some(v) => {
                config.window.height = v;
            },
            None => {},
        }
    } else if same_text(key, "chrome_height") {
        match parse_u32(value.as_str()) {
            Some(v) => {
                config.chrome.height = v;
            },
            None => {},
        }
    } else if same_text(key, "font_size") {
        match parse_64ths(value.as_str()) {
            Some(v) => {
                config.chrome.font_size = v;
            },
            None => {},
        }
    } else if same_text(key, "search_engine_url") {
        config.search.engine_url = value;
    } else if same_text(key, "layout_threads") {
        match parse_i64(value.as_str()) {
            Some(v) => {
                config.servo.layout_threads = v;
            },
            None => {},
        }
    } else if same_text(key, "cache_size") {
        match parse_i64(value.as_str()) {
            Some(v) => {
                config.servo.cache_size = v;
            },
            None => {},
        }
    } else if same_text(key, "user_agent") {
        config.servo.user_agent = value;
    } else if same_text(key, "precache_shaders") {
        config.servo.precache_shaders = same_text(value.as_str(), "true");
    } else if same_text(key, "enforce_tls") {
        config.privacy.enforce_tls = same_text(value.as_str(), "true");
    } else if same_text(key, "disable_mime_sniff") {
        config.privacy.disable_mime_sniff = same_text(value.as_str(), "true");
    } else if same_text(key, "disable_geolocation") {
        config.privacy.disable_geolocation = same_text(value.as_str(), "true");
    } else if same_text(key, "disable_bluetooth") {
        config.privacy.disable_bluetooth = same_text(value.as_str(), "true");
    } else if same_text(key, "disable_notifications") {
        config.privacy.disable_notifications = same_text(value.as_str(), "true");
    } else if same_text(key, "disable_webrtc") {
        config.privacy.disable_webrtc = same_text(value.as_str(), "true");
    }
}

/// Sets the setting that the pair `key=value` names.
fn set_pair(config: &mut Config, pair: &Vec<char>)
    ensures
        final(config)@ == with_pair(old(config)@, pair@),
{
    assert(pair@.skip(0) =~= pair@);
    let at = find_char(pair, 0, '=');
    let key = string_from_chars(pair, 0, at);
    let raw = if at < pair.len() {
        string_from_chars(pair, at + 1, pair.len())
    } else {
        String::new()
    };
    let value = url_decode(raw.as_str());
    set_option(config, key.as_str(), value);
}

impl Config {
    /// The default settings with those that the query names set: pairs `key=value`,
    /// separated by `&`. Keys that name no setting are passed over.
    pub fn from_query_params(query: &str) -> (c: Config)
        ensures
            c@ == with_query(default_settings(), query@),
    {
        let chars = crate::text::collect_chars(query);
        let n = chars.len();
        let mut config = Config::default();
        let mut start: usize = 0;
        assert(chars@.skip(0) =~= chars@);
        loop
            invariant
                start <= n == chars.len(),
                chars@ == query@,
                with_query(default_settings(), query@) == with_query(
                    config@,
                    chars@.skip(start as int),
                ),
            decreases n - start,
        {
            let end = find_char(&chars, start, '&');
            let pair = copy_chars(&chars, start, end);
            assert(pair@ =~= chars@.skip(start as int).take(end - start));
            if end == n {
                assert(pair@ =~= chars@.skip(start as int));
                set_pair(&mut config, &pair);
                return config;
            }
            set_pair(&mut config, &pair);
            assert(chars@.skip(start as int).skip(end - start + 1) =~= chars@.skip(end + 1));
            start = end + 1;
        }
    }
}

} // verus!
