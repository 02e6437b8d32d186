//! The settings page: its HTML, and the URL by which it hands the new settings back.

use crate::config::{default_settings, with_query, Config, ConfigView};
use crate::numbers::{
    decimal, decimal_64ths, find_char, first_index, push_64ths, push_decimal,
    push_signed_decimal, signed_decimal,
};
use crate::text::{
    collect_chars, hex_digit_upper, hex_upper, push_char, starts_with, string_from_chars,
};
use vstd::prelude::*;
use vstd::string::StringExecFns;
use vstd::utf8::encode_utf8;

verus! {

/// The save action's URL up to its query, over plain HTTP.
pub const SAVE_URL_HTTP: &'static str = "http://suribrows.settings/save";

/// The save action's URL up to its query, over HTTPS.
pub const SAVE_URL_HTTPS: &'static str = "https://suribrows.settings/save";

/// The page shown once the settings are saved.
pub const SAVED_PAGE: &'static str =
    "<!DOCTYPE html>\n<html lang=\"en\">\n<head>\n<meta charset=\"utf-8\">\n<title>Settings Saved</title>\n<style>\nbody {\n    font-family: -apple-system, BlinkMacSystemFont, \"Segoe UI\", Roboto, sans-serif;\n    background: #1a1a1a; color: #e0e0e0;\n    display: flex; justify-content: center; align-items: center;\n    height: 100vh; flex-direction: column;\n}\nh1 { font-size: 24px; color: #6a9eff; margin-bottom: 12px; }\np { font-size: 16px; color: #888; }\n</style>\n</head>\n<body>\n<h1>Settings saved!</h1>\n<p>Restart SuriBrows to apply changes.</p>\n</body>\n</html>";

/// A byte that percent-encoding leaves as it is: a letter, a digit, or one of `-_.~!*()'`.
pub open spec fn is_unreserved(b: u8) -> bool {
    ||| 0x41 <= b <= 0x5A
    ||| 0x61 <= b <= 0x7A
    ||| 0x30 <= b <= 0x39
    ||| b == 0x2D
    ||| b == 0x5F
    ||| b == 0x2E
    ||| b == 0x7E
    ||| b == 0x21
    ||| b == 0x2A
    ||| b == 0x28
    ||| b == 0x29
    ||| b == 0x27
}

/// The percent-encoding of one byte.
pub open spec fn percent_encoded_byte(b: u8) -> Seq<char> {
    if is_unreserved(b) {
        seq![b as char]
    } else {
        seq!['%', hex_upper(b / 16), hex_upper(b % 16)]
    }
}

/// The percent-encoding of the bytes.
pub open spec fn percent_encoded(bytes: Seq<u8>) -> Seq<char>
    decreases bytes.len(),
{
    if bytes.len() == 0 {
        Seq::empty()
    } else {
        percent_encoded(bytes.drop_last()) + percent_encoded_byte(bytes.last())
    }
}

/// What a character becomes in an HTML attribute value.
pub open spec fn escaped_char(c: char) -> Seq<char> {
    if c == '&' {
        "&amp;"@
    } else if c == '"' {
        "&quot;"@
    } else if c == '<' {
        "&lt;"@
    } else if c == '>' {
        "&gt;"@
    } else {
        seq![c]
    }
}

/// The text with `&`, `"`, `<` and `>` escaped for an HTML attribute value.
pub open spec fn escaped(s: Seq<char>) -> Seq<char>
    decreases s.len(),
{
    if s.len() == 0 {
        Seq::empty()
    } else {
        escaped(s.drop_last()) + escaped_char(s.last())
    }
}

/// Whether `url` asks to save the settings.
pub fn is_settings_save_url(url: &str) -> (r: bool)
    ensures
        r == (SAVE_URL_HTTP@.is_prefix_of(url@) || SAVE_URL_HTTPS@.is_prefix_of(url@)),
{
    starts_with(url, SAVE_URL_HTTP) || starts_with(url, SAVE_URL_HTTPS)
}

/// The page shown once the settings are saved.
pub fn generate_saved_html() -> (html: String)
    ensures
        html@ == SAVED_PAGE@,
{
    String::from_str(SAVED_PAGE)
}

/// Percent-encodes `input` for a `data:` URL.
pub fn url_encode(input: &str) -> (r: String)
    ensures
        r@ == percent_encoded(encode_utf8(input@)),
{
    let bytes = input.as_bytes();
    let mut result = String::new();
    let mut i: usize = 0;
    assert(bytes@.take(0) =~= Seq::<u8>::empty());
    while i < bytes.len()
        invariant
            i <= bytes.len(),
            bytes@ == encode_utf8(input@),
            result@ == percent_encoded(bytes@.take(i as int)),
        decreases bytes.len() - i,
    {
        let byte = bytes[i];
        let ghost before = result@;
        if (0x41 <= byte && byte <= 0x5A) || (0x61 <= byte && byte <= 0x7A) || (0x30 <= byte
            && byte <= 0x39) || byte == 0x2D || byte == 0x5F || byte == 0x2E || byte == 0x7E
            || byte == 0x21 || byte == 0x2A || byte == 0x28 || byte == 0x29 || byte == 0x27 {
            push_char(&mut result, byte as char);
        } else {
            push_char(&mut result, '%');
            push_char(&mut result, hex_digit_upper(byte / 16));
            push_char(&mut result, hex_digit_upper(byte % 16));
        }
        proof {
            assert(bytes@.take(i + 1).drop_last() =~= bytes@.take(i as int));
            assert(result@ =~= before + percent_encoded_byte(byte));
        }
        i = i + 1;
    }
    assert(bytes@.take(i as int) =~= bytes@);
    result
}

/// Escapes `s` for an HTML attribute value.
pub fn html_escape(s: &str) -> (r: String)
    ensures
        r@ == escaped(s@),
{
    let mut result = String::new();
    assert(s@.take(0) =~= Seq::<char>::empty());
    for c in it: s.chars()
        invariant
            it.seq() == s@,
            result@ == escaped(s@.take(it.index())),
    {
        proof {
            let i = it.index();
            assert(s@.take(i + 1).drop_last() =~= s@.take(i));
        }
        if c == '&' {
            result.append("&amp;");
        } else if c == '"' {
            result.append("&quot;");
        } else if c == '<' {
            result.append("&lt;");
        } else if c == '>' {
            result.append("&gt;");
        } else {
            push_char(&mut result, c);
        }
    }
    assert(s@.take(s@.len() as int) =~= s@);
    result
}

/// The settings page up to the value of the default URL.
pub const PAGE_0: &'static str =
    "<!DOCTYPE html>\n<html lang=\"en\">\n<head>\n<meta charset=\"utf-8\">\n<title>SuriBrows Settings</title>\n<style>\n* { margin: 0; padding: 0; box-sizing: border-box; }\nbody {\n    font-family: -apple-system, BlinkMacSystemFont, \"Segoe UI\", Roboto, sans-serif;\n    background: #1a1a1a; color: #e0e0e0;\n    max-width: 700px; margin: 0 auto; padding: 24px;\n}\nh1 { font-size: 22px; margin-bottom: 20px; color: #fff; }\nh2 {\n    font-size: 14px; text-transform: uppercase; letter-spacing: 1px;\n    color: #888; margin: 24px 0 12px; padding-bottom: 6px;\n    border-bottom: 1px solid #333;\n}\nlabel {\n    display: flex; justify-content: space-between; align-items: center;\n    margin-bottom: 10px; font-size: 14px;\n}\nlabel span { flex: 0 0 200px; }\ninput[type=\"text\"], input[type=\"number\"] {\n    flex: 1; background: #2a2a2a; border: 1px solid #444;\n    color: #e0e0e0; padding: 6px 10px; border-radius: 4px;\n    font-size: 13px; font-family: monospace;\n}\ninput:focus { border-color: #6a9eff; outline: none; }\n.toggle {\n    display: flex; justify-content: space-between; align-items: center;\n    margin-bottom: 10px; font-size: 14px;\n}\n.toggle input[type=\"checkbox\"] {\n    width: 18px; height: 18px; accent-color: #6a9eff;\n}\n.save-bar {\n    position: sticky; bottom: 0; background: #1a1a1a;\n    padding: 16px 0; border-top: 1px solid #333; margin-top: 24px;\n    display: flex; gap: 12px;\n}\nbutton {\n    padding: 8px 24px; border: none; border-radius: 4px;\n    font-size: 14px; cursor: pointer;\n}\n.btn-save { background: #6a9eff; color: #000; font-weight: 600; }\n.btn-save:hover { background: #85b0ff; }\n.btn-cancel { background: #333; color: #e0e0e0; }\n.btn-cancel:hover { background: #444; }\n.note { font-size: 12px; color: #666; margin-top: 4px; }\n</style>\n</head>\n<body>\n<h1>Settings</h1>\n\n<h2>General</h2>\n<label><span>Default URL</span>\n<input type=\"text\" id=\"default_url\" value=\"";

/// The settings page between two of its values.
pub const PAGE_1: &'static str =
    "\"></label>\n<label><span>Window Title</span>\n<input type=\"text\" id=\"window_title\" value=\"";

/// The settings page between two of its values.
pub const PAGE_2: &'static str =
    "\"></label>\n\n<h2>Window</h2>\n<label><span>Width</span>\n<input type=\"number\" id=\"window_width\" value=\"";

/// The settings page between two of its values.
pub const PAGE_3: &'static str =
    "\" min=\"320\"></label>\n<label><span>Height</span>\n<input type=\"number\" id=\"window_height\" value=\"";

/// The settings page between two of its values.
pub const PAGE_4: &'static str =
    "\" min=\"240\"></label>\n\n<h2>Chrome</h2>\n<label><span>Bar Height (px)</span>\n<input type=\"number\" id=\"chrome_height\" value=\"";

/// The settings page between two of its values.
pub const PAGE_5: &'static str =
    "\" min=\"20\" max=\"100\"></label>\n<label><span>Font Size</span>\n<input type=\"number\" id=\"font_size\" value=\"";

/// The settings page between two of its values.
pub const PAGE_6: &'static str =
    "\" step=\"0.5\" min=\"8\" max=\"32\"></label>\n\n<h2>Search</h2>\n<label><span>Search Engine URL</span>\n<input type=\"text\" id=\"search_engine_url\" value=\"";

/// The settings page between two of its values.
pub const PAGE_7: &'static str =
    "\"></label>\n<p class=\"note\">The search query is appended to this URL.</p>\n\n<h2>Performance</h2>\n<label><span>Layout Threads</span>\n<input type=\"number\" id=\"layout_threads\" value=\"";

/// The settings page between two of its values.
pub const PAGE_8: &'static str =
    "\" min=\"0\" max=\"16\"></label>\n<p class=\"note\">0 = auto-detect from CPU count.</p>\n<label><span>Cache Size</span>\n<input type=\"number\" id=\"cache_size\" value=\"";

/// The settings page between two of its values.
pub const PAGE_9: &'static str =
    "\" min=\"0\"></label>\n<label><span>User Agent</span>\n<input type=\"text\" id=\"user_agent\" value=\"";

/// The settings page between two of its values.
pub const PAGE_10: &'static str =
    "\"></label>\n<p class=\"note\">Leave empty for default privacy UA.</p>\n<div class=\"toggle\"><span>Precache Shaders</span>\n<input type=\"checkbox\" id=\"precache_shaders\" ";

/// The settings page between two of its values.
pub const PAGE_11: &'static str =
    "></div>\n\n<h2>Privacy</h2>\n<div class=\"toggle\"><span>Enforce TLS (HTTPS)</span>\n<input type=\"checkbox\" id=\"enforce_tls\" ";

/// The settings page between two of its values.
pub const PAGE_12: &'static str =
    "></div>\n<div class=\"toggle\"><span>Disable MIME Sniffing</span>\n<input type=\"checkbox\" id=\"disable_mime_sniff\" ";

/// The settings page between two of its values.
pub const PAGE_13: &'static str =
    "></div>\n<div class=\"toggle\"><span>Disable Geolocation</span>\n<input type=\"checkbox\" id=\"disable_geolocation\" ";

/// The settings page between two of its values.
pub const PAGE_14: &'static str =
    "></div>\n<div class=\"toggle\"><span>Disable Bluetooth</span>\n<input type=\"checkbox\" id=\"disable_bluetooth\" ";

/// The settings page between two of its values.
pub const PAGE_15: &'static str =
    "></div>\n<div class=\"toggle\"><span>Disable Notifications</span>\n<input type=\"checkbox\" id=\"disable_notifications\" ";

/// The settings page between two of its values.
pub const PAGE_16: &'static str =
    "></div>\n<div class=\"toggle\"><span>Disable WebRTC</span>\n<input type=\"checkbox\" id=\"disable_webrtc\" ";

/// The settings page behind its last value.
pub const PAGE_17: &'static str =
    "></div>\n\n<div class=\"save-bar\">\n<button class=\"btn-save\" onclick=\"save()\">Save Settings</button>\n<button class=\"btn-cancel\" onclick=\"history.back()\">Cancel</button>\n</div>\n\n<script>\nfunction enc(s) { return encodeURIComponent(s); }\nfunction val(id) { return document.getElementById(id).value; }\nfunction chk(id) { return document.getElementById(id).checked; }\nfunction save() {\n    var q = \"default_url=\" + enc(val(\"default_url\"))\n        + \"&window_title=\" + enc(val(\"window_title\"))\n        + \"&window_width=\" + val(\"window_width\")\n        + \"&window_height=\" + val(\"window_height\")\n        + \"&chrome_height=\" + val(\"chrome_height\")\n        + \"&font_size=\" + val(\"font_size\")\n        + \"&search_engine_url=\" + enc(val(\"search_engine_url\"))\n        + \"&layout_threads=\" + val(\"layout_threads\")\n        + \"&cache_size=\" + val(\"cache_size\")\n        + \"&user_agent=\" + enc(val(\"user_agent\"))\n        + \"&precache_shaders=\" + chk(\"precache_shaders\")\n        + \"&enforce_tls=\" + chk(\"enforce_tls\")\n        + \"&disable_mime_sniff=\" + chk(\"disable_mime_sniff\")\n        + \"&disable_geolocation=\" + chk(\"disable_geolocation\")\n        + \"&disable_bluetooth=\" + chk(\"disable_bluetooth\")\n        + \"&disable_notifications=\" + chk(\"disable_notifications\")\n        + \"&disable_webrtc=\" + chk(\"disable_webrtc\");\n    window.location.href = \"http://suribrows.settings/save?\" + q;\n}\n</script>\n</body>\n</html>";

/// The attribute of a checkbox that is ticked, or nothing.
pub open spec fn checked_mark(on: bool) -> Seq<char> {
    if on {
        "checked"@
    } else {
        Seq::empty()
    }
}

/// The settings page with the values of `c` filled in: texts escaped, numbers in decimal,
/// switches as ticks.
pub open spec fn settings_page(c: ConfigView) -> Seq<char> {
    PAGE_0@
        + escaped(c.default_url)
        + PAGE_1@
        + escaped(c.window_title)
        + PAGE_2@
        + decimal(c.window.width as nat)
        + PAGE_3@
        + decimal(c.window.height as nat)
        + PAGE_4@
        + decimal(c.chrome.height as nat)
        + PAGE_5@
        + decimal_64ths(c.chrome.font_size)
        + PAGE_6@
        + escaped(c.engine_url)
        + PAGE_7@
        + signed_decimal(c.layout_threads as int)
        + PAGE_8@
        + signed_decimal(c.cache_size as int)
        + PAGE_9@
        + escaped(c.user_agent)
        + PAGE_10@
        + checked_mark(c.precache_shaders)
        + PAGE_11@
        + checked_mark(c.privacy.enforce_tls)
        + PAGE_12@
        + checked_mark(c.privacy.disable_mime_sniff)
        + PAGE_13@
        + checked_mark(c.privacy.disable_geolocation)
        + PAGE_14@
        + checked_mark(c.privacy.disable_bluetooth)
        + PAGE_15@
        + checked_mark(c.privacy.disable_notifications)
        + PAGE_16@
        + checked_mark(c.privacy.disable_webrtc)
        + PAGE_17@
}

/// The attribute of a checkbox that is ticked, or nothing.
fn checked(on: bool) -> (mark: &'static str)
    ensures
        mark@ == checked_mark(on),
{
    if on {
        "checked"
    } else {
        proof {
            reveal_strlit("");
        }
        ""
    }
}

/// The query of a save URL: what stands between its first and its second question mark.
pub open spec fn save_query(url: Seq<char>) -> Option<Seq<char>> {
    let at = first_index(url, '?') as int;
    if at < url.len() {
        let rest = url.skip(at + 1);
        Some(rest.take(first_index(rest, '?') as int))
    } else {
        None
    }
}

/// The settings that a save URL carries in its query, or `None` where it has no query.
pub fn parse_settings_url(url: &str) -> (r: Option<Config>)
    ensures
        match r {
            Some(config) => save_query(url@) is Some && config@ == with_query(
                default_settings(),
                save_query(url@)->0,
            ),
            None => save_query(url@) is None,
        },
{
    let chars = collect_chars(url);
    assert(chars@.skip(0) =~= chars@);
    let at = find_char(&chars, 0, '?');
    if at == chars.len() {
        return None;
    }
    let end = find_char(&chars, at + 1, '?');
    let query = string_from_chars(&chars, at + 1, end);
    assert(query@ =~= save_query(url@)->0);
    Some(Config::from_query_params(query.as_str()))
}

/// The settings page with the values of `config` filled in.
pub fn generate_settings_html(config: &Config) -> (html: String)
    ensures
        html@ == settings_page(config@),
{
    let mut html = String::from_str(PAGE_0);
    html.append(html_escape(config.general.default_url.as_str()).as_str());
    html.append(PAGE_1);
    html.append(html_escape(config.general.window_title.as_str()).as_str());
    html.append(PAGE_2);
    push_decimal(&mut html, config.window.width as u64);
    html.append(PAGE_3);
    push_decimal(&mut html, config.window.height as u64);
    html.append(PAGE_4);
    push_decimal(&mut html, config.chrome.height as u64);
    html.append(PAGE_5);
    push_64ths(&mut html, config.chrome.font_size);
    html.append(PAGE_6);
    html.append(html_escape(config.search.engine_url.as_str()).as_str());
    html.append(PAGE_7);
    push_signed_decimal(&mut html, config.servo.layout_threads);
    html.append(PAGE_8);
    push_signed_decimal(&mut html, config.servo.cache_size);
    html.append(PAGE_9);
    html.append(html_escape(config.servo.user_agent.as_str()).as_str());
    html.append(PAGE_10);
    html.append(checked(config.servo.precache_shaders));
    html.append(PAGE_11);
    html.append(checked(config.privacy.enforce_tls));
    html.append(PAGE_12);
    html.append(checked(config.privacy.disable_mime_sniff));
    html.append(PAGE_13);
    html.append(checked(config.privacy.disable_geolocation));
    html.append(PAGE_14);
    html.append(checked(config.privacy.disable_bluetooth));
    html.append(PAGE_15);
    html.append(checked(config.privacy.disable_notifications));
    html.append(PAGE_16);
    html.append(checked(config.privacy.disable_webrtc));
    html.append(PAGE_17);
        html
}

} // verus!
