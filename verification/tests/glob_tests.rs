use obscura_js::glob::{glob_match, url_is_blocked};

#[test]
fn glob_literal_and_wildcards() {
    assert!(glob_match("abc", "abc"));
    assert!(!glob_match("abc", "abd"));
    assert!(!glob_match("abc", "ab"));
    assert!(!glob_match("ab", "abc"));
    assert!(glob_match("a?c", "abc"));
    assert!(!glob_match("a?c", "ac"));
    assert!(glob_match("*", ""));
    assert!(glob_match("*", "anything at all"));
    assert!(glob_match("https://*.example.com/*", "https://ads.example.com/x.js"));
    assert!(glob_match("*.js", "https://a.com/app.js"));
    assert!(glob_match("a*b*c", "aXXbYYc"));
    assert!(glob_match("ab**", "ab"));
    // The text before the first star must match as it stands.
    assert!(!glob_match("a*c", "xbc"));
    assert!(!glob_match("https://*", "http://a.com/"));
}

#[test]
fn glob_after_a_star_still_matches_the_rest_exactly() {
    // The text after a star must match the end of the url.
    assert!(!glob_match("*.gif", "https://a.com/page.html"));
    assert!(glob_match("*.gif", "https://a.com/pixel.gif"));
    assert!(!glob_match("a*c", "abd"));
    assert!(!glob_match("*ab", "xxcd"));
    assert!(glob_match("*ab", "xxab"));
    // Backtracking: the star must take the right run.
    assert!(glob_match("*aab", "aaaab"));
    assert!(glob_match("a*b?d", "aXbYbZd"));
    assert!(glob_match("a*b?d", "aXbYd"));
    assert!(!glob_match("a*b?d", "aXbd"));
    assert!(glob_match("**", ""));
    assert!(!glob_match("?", ""));
}

#[test]
fn glob_prefix_star_matches_every_extension() {
    assert!(glob_match("https://a.com/*", "https://a.com/"));
    assert!(glob_match("https://a.com/*", "https://a.com/deep/path?q=1"));
}

#[test]
fn blocking_rules() {
    let rules = vec!["tracker".to_string(), "/ads/".to_string()];
    assert!(url_is_blocked(&rules, "https://tracker.net/t.js"));
    assert!(url_is_blocked(&rules, "https://a.com/ads/pixel.gif"));
    assert!(!url_is_blocked(&rules, "https://a.com/page.html"));
    assert!(url_is_blocked(&vec!["*".to_string()], "https://anything/"));
    assert!(url_is_blocked(&vec!["https://*.cdn.com/*".to_string()], "https://x.cdn.com/lib.js"));
    assert!(!url_is_blocked(&vec![], "https://anything/"));
}
