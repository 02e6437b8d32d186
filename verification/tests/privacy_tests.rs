use suribrows::privacy::AdblockEngine;

fn engine_from_rules(rules: &[&str]) -> AdblockEngine {
    let mut lists: Vec<Option<String>> = rules.iter().map(|r| Some(r.to_string())).collect();
    if lists.is_empty() {
        lists.push(Some(String::new()));
    }
    AdblockEngine::new(&lists).expect("an engine is built from the lists")
}

#[test]
fn test_should_block_ad_url() {
    let mut engine = engine_from_rules(&["||ads.example.com^"]);
    assert!(engine.should_block(
        "https://ads.example.com/banner.js",
        "https://example.com",
        "script"
    ));
}

#[test]
fn test_should_not_block_clean_url() {
    let mut engine = engine_from_rules(&["||ads.example.com^"]);
    assert!(!engine.should_block(
        "https://example.com/page.html",
        "https://example.com",
        "document"
    ));
}

#[test]
fn test_cache_returns_same_result() {
    let mut engine = engine_from_rules(&["||ads.example.com^"]);
    let first = engine.should_block(
        "https://ads.example.com/banner.js",
        "https://example.com",
        "script",
    );
    let second = engine.should_block(
        "https://ads.example.com/banner.js",
        "https://example.com",
        "script",
    );
    assert_eq!(first, second);
    assert_eq!(engine.cache_len(), 1);
}

#[test]
fn test_clear_cache_empties_cache() {
    let mut engine = engine_from_rules(&["||ads.example.com^"]);
    engine.should_block(
        "https://ads.example.com/banner.js",
        "https://example.com",
        "script",
    );
    assert!(engine.cache_len() != 0);
    engine.clear_cache();
    assert!(engine.cache_len() == 0);
}

#[test]
fn test_malformed_url_not_blocked() {
    let mut engine = engine_from_rules(&["||ads.example.com^"]);
    assert!(!engine.should_block("not-a-valid-url-at-all", "https://example.com", "other"));
}

#[test]
fn test_data_uri_not_blocked() {
    let mut engine = engine_from_rules(&["||ads.example.com^"]);
    assert!(!engine.should_block(
        "data:text/html,<h1>hi</h1>",
        "https://example.com",
        "document"
    ));
}

#[test]
fn test_empty_filter_set_blocks_nothing() {
    let mut engine = engine_from_rules(&[]);
    assert!(!engine.should_block(
        "https://ads.example.com/banner.js",
        "https://example.com",
        "script"
    ));
}

#[test]
fn test_multiple_filters() {
    let mut engine = engine_from_rules(&["||ads.example.com^\n||tracker.example.com^"]);
    assert!(engine.should_block(
        "https://ads.example.com/x.js",
        "https://example.com",
        "script"
    ));
    assert!(engine.should_block(
        "https://tracker.example.com/t.gif",
        "https://example.com",
        "image"
    ));
    assert!(!engine.should_block(
        "https://example.com/page.html",
        "https://example.com",
        "document"
    ));
}

#[test]
fn test_different_source_urls_cached_separately() {
    let mut engine = engine_from_rules(&["||ads.example.com^"]);
    engine.should_block(
        "https://ads.example.com/x.js",
        "https://site-a.com",
        "script",
    );
    engine.should_block(
        "https://ads.example.com/x.js",
        "https://site-b.com",
        "script",
    );
    assert_eq!(engine.cache_len(), 2);
}

#[test]
fn test_new_returns_some_when_filters_exist() {
    let engine = AdblockEngine::new(&vec![Some("||ads.example.com^".to_string())]);
    assert!(engine.is_some());
}

#[test]
fn test_cache_hit_no_panic() {
    let mut engine = engine_from_rules(&["||ads.example.com^"]);
    for _ in 0..100 {
        engine.should_block(
            "https://ads.example.com/x.js",
            "https://example.com",
            "script",
        );
    }
    assert_eq!(engine.cache_len(), 1);
}

#[test]
fn no_lists_no_engine() {
    assert!(AdblockEngine::new(&Vec::new()).is_none());
    assert!(AdblockEngine::new(&vec![None]).is_some());
}

#[test]
fn unreadable_lists_are_passed_over() {
    let mut engine = AdblockEngine::new(&vec![
        None,
        Some("||ads.example.com^".to_string()),
        None,
        Some("||tracker.example.com^".to_string()),
    ])
    .unwrap();
    assert!(engine.should_block("https://ads.example.com/a", "https://example.com", "image"));
    assert!(engine.should_block("https://tracker.example.com/a", "https://example.com", "image"));
    assert!(!engine.should_block("https://example.org/a", "https://example.com", "image"));
}

#[test]
fn remembered_verdicts_are_looked_up() {
    let mut engine = engine_from_rules(&["||ads.example.com^"]);
    assert_eq!(engine.lookup("https://ads.example.com/a", "https://example.com"), None);
    assert!(engine.should_block("https://ads.example.com/a", "https://example.com", "image"));
    assert_eq!(engine.lookup("https://ads.example.com/a", "https://example.com"), Some(true));
    assert_eq!(engine.lookup("https://ads.example.com/a", "https://example.co"), None);
    assert_eq!(engine.lookup("https://ads.example.com/", "https://example.com"), None);
    engine.record("u", "s", true);
    assert!(engine.should_block("u", "s", "other"));
    assert!(!engine.should_block("not a url", "s", "other"));
    assert_eq!(engine.lookup("not a url", "s"), Some(false));
    assert_eq!(engine.cache_len(), 3);
    engine.clear_cache();
    assert_eq!(engine.lookup("u", "s"), None);
    assert!(!engine.should_block("u", "s", "other"));
}
