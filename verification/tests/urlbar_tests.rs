use suribrows::urlbar::{
    normalize_url_for_display, resolve_input, resolve_input_with, UrlBar, DUCKDUCKGO_SEARCH,
};
use suribrows::weburl::Url;

fn typed(text: &str) -> UrlBar {
    let mut bar = UrlBar::new();
    bar.focus();
    for c in text.chars() {
        bar.insert_char(c);
    }
    bar
}

fn written(serialization: &str, host: &str) -> Url {
    Url::from_parts(
        serialization.to_string(),
        "https".to_string(),
        Some(host.to_string()),
    )
}

#[test]
fn test_punycode_warning() {
    let url = Url::parse("https://xn--ggle-0nd.com/path").unwrap();
    let normalized = normalize_url_for_display(&url);

    assert!(
        normalized.contains("\u{26A0}\u{FE0F}"),
        "Should contain warning emoji: {}",
        normalized
    );
    assert!(
        normalized.contains("Punycode"),
        "Should mention Punycode: {}",
        normalized
    );
    assert!(
        normalized.contains("xn--ggle-0nd.com"),
        "Should show the actual punycode: {}",
        normalized
    );
}

#[test]
fn test_normal_domain_unchanged() {
    let url = Url::parse("https://google.com/path?query=value").unwrap();
    let normalized = normalize_url_for_display(&url);

    assert!(
        !normalized.contains("\u{26A0}\u{FE0F}"),
        "Normal URL should not have warning"
    );
    assert_eq!(
        normalized, "https://google.com/path?query=value",
        "Normal URL should be unchanged"
    );
}

#[test]
fn test_zero_width_characters_filtered() {
    let url = Url::parse("https://google.com/path").unwrap();
    let normalized = normalize_url_for_display(&url);

    assert!(
        !normalized.contains('\u{200B}'),
        "Should filter zero-width space"
    );
    assert!(
        !normalized.contains('\u{200C}'),
        "Should filter zero-width non-joiner"
    );
    assert!(
        !normalized.contains('\u{200D}'),
        "Should filter zero-width joiner"
    );
    assert!(
        !normalized.contains('\u{2060}'),
        "Should filter word joiner"
    );
    assert!(
        !normalized.contains('\u{FEFF}'),
        "Should filter zero-width no-break space"
    );
}

#[test]
fn test_url_bar_uses_normalization() {
    let mut urlbar = UrlBar::new();
    let punycode_url = written("https://xn--test-123.com/", "xn--test-123.com");

    urlbar.set_url(&punycode_url);

    assert!(
        urlbar.display_text().contains("\u{26A0}\u{FE0F}"),
        "UrlBar should display warning for punycode: {}",
        urlbar.display_text()
    );
}

#[test]
fn test_unfocus_restores_normalized_url() {
    let mut urlbar = UrlBar::new();
    let punycode_url = written("https://xn--evil-123.com/", "xn--evil-123.com");

    urlbar.set_url(&punycode_url);
    urlbar.focus();
    urlbar.insert_char('t');
    urlbar.insert_char('e');
    urlbar.insert_char('s');
    urlbar.insert_char('t');

    urlbar.unfocus();

    assert!(
        urlbar.display_text().contains("\u{26A0}\u{FE0F}"),
        "Unfocus should restore normalized URL: {}",
        urlbar.display_text()
    );
}

#[test]
fn test_resolve_input_https() {
    let result = resolve_input("google.com").unwrap();
    assert_eq!(result.scheme(), "https");
    assert_eq!(result.host_str(), Some("google.com"));
}

#[test]
fn test_resolve_input_duckduckgo_search() {
    let result = resolve_input("hello world").unwrap();
    assert!(result.as_str().starts_with("https://duckduckgo.com/?q="));
    assert!(result.as_str().contains("hello"));
}

#[test]
fn punycode_display_is_exact() {
    let url = Url::parse("https://xn--ggle-0nd.com/path").unwrap();
    assert_eq!(
        normalize_url_for_display(&url),
        "\u{26A0}\u{FE0F}  https://xn--ggle-0nd.com/path (Punycode)"
    );
}

#[test]
fn invisible_characters_are_stripped() {
    let text = "https://google.com/\u{200B}a\u{200C}b\u{200D}c\u{2060}d\u{FEFF}e\u{034F}f\u{2028}g\u{2029}h";
    let url = written(text, "google.com");
    assert_eq!(normalize_url_for_display(&url), "https://google.com/abcdefgh");
}

#[test]
fn url_without_host_is_stripped_only() {
    let url = Url::from_parts("data:text/plain,x\u{200B}y".to_string(), "data".to_string(), None);
    assert_eq!(normalize_url_for_display(&url), "data:text/plain,xy");
}

#[test]
fn parse_reads_scheme_and_host() {
    let url = Url::parse("HTTP://Example.COM/a b").unwrap();
    assert_eq!(url.scheme(), "http");
    assert_eq!(url.host_str(), Some("example.com"));
    assert_eq!(url.as_str(), "http://example.com/a%20b");
    assert!(Url::parse("not a url").is_none());
    assert!(Url::parse("https://xn--test-123.com").is_none());
}

#[test]
fn new_bar_is_empty_and_unfocused() {
    let bar = UrlBar::new();
    assert_eq!(bar.display_text(), "");
    assert_eq!(bar.cursor_pos(), 0);
    assert_eq!(bar.cursor_char_offset(), 0);
    assert!(!bar.is_focused());
}

#[test]
fn cursor_counts_characters_not_bytes() {
    let mut bar = typed("a\u{e9}\u{20ac}\u{1F600}z");
    assert_eq!(bar.display_text(), "a\u{e9}\u{20ac}\u{1F600}z");
    assert_eq!(bar.cursor_pos(), 1 + 2 + 3 + 4 + 1);
    assert_eq!(bar.cursor_char_offset(), 5);
    bar.move_cursor_left();
    assert_eq!((bar.cursor_pos(), bar.cursor_char_offset()), (10, 4));
    bar.move_cursor_left();
    assert_eq!((bar.cursor_pos(), bar.cursor_char_offset()), (6, 3));
    bar.move_cursor_left();
    assert_eq!((bar.cursor_pos(), bar.cursor_char_offset()), (3, 2));
    bar.move_cursor_left();
    assert_eq!((bar.cursor_pos(), bar.cursor_char_offset()), (1, 1));
    bar.move_cursor_left();
    assert_eq!((bar.cursor_pos(), bar.cursor_char_offset()), (0, 0));
    bar.move_cursor_left();
    assert_eq!((bar.cursor_pos(), bar.cursor_char_offset()), (0, 0));
    bar.move_cursor_right();
    bar.move_cursor_right();
    assert_eq!((bar.cursor_pos(), bar.cursor_char_offset()), (3, 2));
    assert_eq!(
        bar.display_text()[..bar.cursor_pos()].chars().count(),
        bar.cursor_char_offset()
    );
}

#[test]
fn unfocus_twice_shows_what_once_shows() {
    let mut bar = UrlBar::new();
    bar.set_url(&Url::parse("https://example.com/a").unwrap());
    bar.focus();
    bar.insert_char('q');
    bar.unfocus();
    let once = bar.display_text().to_string();
    let cursor = bar.cursor_pos();
    bar.unfocus();
    assert_eq!(bar.display_text(), once);
    assert_eq!(bar.cursor_pos(), cursor);
    assert_eq!(once, "https://example.com/a");
    assert!(!bar.is_focused());
}

#[test]
fn unfocus_without_url_keeps_text() {
    let mut bar = typed("abc");
    bar.unfocus();
    assert_eq!(bar.display_text(), "abc");
    assert!(!bar.is_focused());
    bar.unfocus();
    assert_eq!(bar.display_text(), "abc");
}

#[test]
fn first_typed_character_replaces_selection() {
    let mut bar = UrlBar::new();
    bar.set_url(&Url::parse("https://example.com/").unwrap());
    assert_eq!(bar.display_text(), "https://example.com/");
    bar.focus();
    assert_eq!(bar.cursor_pos(), 20);
    bar.insert_char('x');
    assert_eq!(bar.display_text(), "x");
    assert_eq!(bar.cursor_pos(), 1);
    bar.insert_char('y');
    assert_eq!(bar.display_text(), "xy");
}

#[test]
fn insert_in_the_middle() {
    let mut bar = typed("ac");
    bar.move_cursor_left();
    bar.insert_char('b');
    assert_eq!(bar.display_text(), "abc");
    assert_eq!(bar.cursor_char_offset(), 2);
}

#[test]
fn typing_without_focus_edits_in_place() {
    let mut bar = UrlBar::new();
    bar.insert_char('a');
    bar.insert_char('b');
    assert_eq!(bar.display_text(), "ab");
    assert!(!bar.is_focused());
    bar.backspace();
    assert_eq!(bar.display_text(), "a");
}

#[test]
fn backspace_and_delete_respect_characters() {
    let mut bar = typed("a\u{20ac}b");
    bar.backspace();
    assert_eq!(bar.display_text(), "a\u{20ac}");
    bar.backspace();
    assert_eq!(bar.display_text(), "a");
    assert_eq!(bar.cursor_pos(), 1);
    bar.backspace();
    bar.backspace();
    assert_eq!(bar.display_text(), "");
    assert_eq!(bar.cursor_pos(), 0);

    let mut bar = typed("\u{e9}xy");
    bar.delete();
    assert_eq!(bar.display_text(), "\u{e9}xy");
    bar.home();
    bar.delete();
    assert_eq!(bar.display_text(), "xy");
    assert_eq!(bar.cursor_pos(), 0);
    bar.move_cursor_right();
    bar.delete();
    assert_eq!(bar.display_text(), "x");
    assert_eq!(bar.cursor_pos(), 1);
}

#[test]
fn selected_text_is_cleared_by_backspace_and_delete() {
    let mut bar = typed("hello");
    bar.select_all();
    bar.backspace();
    assert_eq!(bar.display_text(), "");
    assert_eq!(bar.cursor_pos(), 0);
    assert!(bar.is_focused());

    let mut bar = typed("hello");
    bar.focus();
    bar.delete();
    assert_eq!(bar.display_text(), "");
    bar.insert_char('z');
    assert_eq!(bar.display_text(), "z");
}

#[test]
fn moving_from_selection() {
    let mut bar = typed("hello");
    bar.select_all();
    bar.move_cursor_left();
    assert_eq!(bar.cursor_pos(), 0);
    bar.insert_char('>');
    assert_eq!(bar.display_text(), ">hello");

    let mut bar = typed("hello");
    bar.select_all();
    bar.move_cursor_right();
    assert_eq!(bar.cursor_pos(), 5);
    bar.insert_char('!');
    assert_eq!(bar.display_text(), "hello!");
    bar.move_cursor_right();
    assert_eq!(bar.cursor_pos(), 6);
}

#[test]
fn home_and_end() {
    let mut bar = typed("a\u{e9}b");
    bar.home();
    assert_eq!(bar.cursor_pos(), 0);
    bar.end();
    assert_eq!(bar.cursor_pos(), 4);
    bar.select_all();
    bar.home();
    bar.insert_char('x');
    assert_eq!(bar.display_text(), "xa\u{e9}b");
    bar.select_all();
    bar.end();
    bar.insert_char('y');
    assert_eq!(bar.display_text(), "xa\u{e9}by");
}

#[test]
fn blank_text_submits_nothing() {
    let mut bar = typed("");
    assert!(bar.is_focused());
    assert!(bar.submit().is_none());
    assert!(!bar.is_focused());
    let mut bar = typed("   ");
    assert!(bar.submit().is_none());
    assert!(!bar.is_focused());
    assert_eq!(bar.display_text(), "   ");
    assert_eq!(bar.cursor_pos(), 3);
    let mut bar = typed(" \t\u{a0}\u{3000}");
    assert!(bar.submit().is_none());
    assert!(!bar.is_focused());
    let mut bar = UrlBar::new();
    assert!(bar.submit().is_none());
    assert!(!bar.is_focused());
}

#[test]
fn domain_submits_https() {
    let mut bar = typed("example.com");
    let url = bar.submit().unwrap();
    assert_eq!(url.scheme(), "https");
    assert_eq!(url.host_str(), Some("example.com"));
    assert_eq!(url.as_str(), "https://example.com/");
    assert!(!bar.is_focused());
    assert_eq!(bar.display_text(), "example.com");
}

#[test]
fn words_submit_a_search() {
    let mut bar = typed("  hello world ");
    let url = bar.submit().unwrap();
    assert_eq!(url.as_str(), "https://duckduckgo.com/?q=hello+world");
    assert!(!bar.is_focused());
}

#[test]
fn search_query_is_form_encoded() {
    let url = resolve_input("a&b=c/\u{e9}~ *-._").unwrap();
    assert_eq!(
        url.as_str(),
        "https://duckduckgo.com/?q=a%26b%3Dc%2F%C3%A9%7E+*-._"
    );
}

#[test]
fn web_urls_are_taken_as_they_are() {
    assert_eq!(
        resolve_input("http://example.com/x").unwrap().as_str(),
        "http://example.com/x"
    );
    assert_eq!(
        resolve_input("https://example.com").unwrap().as_str(),
        "https://example.com/"
    );
}

#[test]
fn other_schemes_are_not_taken_as_they_are() {
    let url = resolve_input("ftp://example.com").unwrap();
    assert_eq!(url.scheme(), "https");
    let url = resolve_input("mailto:me").unwrap();
    assert_eq!(url.as_str(), "https://duckduckgo.com/?q=mailto%3Ame");
    let url = resolve_input("a.b c").unwrap();
    assert_eq!(url.as_str(), "https://duckduckgo.com/?q=a.b+c");
}

#[test]
fn set_url_spares_an_edit() {
    let mut bar = typed("draft");
    bar.set_url(&Url::parse("https://example.org/").unwrap());
    assert_eq!(bar.display_text(), "draft");
    assert_eq!(bar.cursor_pos(), 5);
    bar.unfocus();
    assert_eq!(bar.display_text(), "https://example.org/");
    assert_eq!(bar.cursor_pos(), 20);
    bar.set_url(&Url::parse("https://example.net/").unwrap());
    assert_eq!(bar.display_text(), "https://example.net/");
}

#[test]
fn configured_search_engine_is_used() {
    assert_eq!(DUCKDUCKGO_SEARCH, "https://duckduckgo.com/?q=");
    let mut bar = UrlBar::with_search_url("https://search.example/find?text=".to_string());
    bar.focus();
    for c in "hello world".chars() {
        bar.insert_char(c);
    }
    let url = bar.submit().unwrap();
    assert_eq!(url.as_str(), "https://search.example/find?text=hello+world");
    assert!(url.as_str().starts_with("https://search.example/find?text="));
    assert!(!bar.is_focused());
    assert_eq!(
        resolve_input_with("a b", "https://s.example/?q=").unwrap().as_str(),
        "https://s.example/?q=a+b"
    );
    assert_eq!(
        resolve_input_with("example.com", "no url").unwrap().as_str(),
        "https://example.com/"
    );
}

#[test]
fn search_engine_that_is_no_url_gives_no_destination() {
    let mut bar = UrlBar::with_search_url("no url ".to_string());
    bar.focus();
    bar.insert_char('x');
    assert!(bar.submit().is_none());
    assert!(!bar.is_focused());
    assert_eq!(bar.display_text(), "x");
    assert!(resolve_input_with("x", "").is_none());
}

#[test]
fn white_space_of_any_kind_makes_a_search() {
    assert_eq!(
        resolve_input("a.b\tc").unwrap().as_str(),
        "https://duckduckgo.com/?q=a.b%09c"
    );
    assert_eq!(
        resolve_input("a.b\u{a0}c").unwrap().as_str(),
        "https://duckduckgo.com/?q=a.b%C2%A0c"
    );
    assert_eq!(
        resolve_input("a.b\nc").unwrap().as_str(),
        "https://duckduckgo.com/?q=a.b%0Ac"
    );
    assert_eq!(
        resolve_input("a.b\u{3000}").unwrap().as_str(),
        "https://duckduckgo.com/?q=a.b%E3%80%80"
    );
    assert_eq!(resolve_input("a.bc").unwrap().as_str(), "https://a.bc/");
}
