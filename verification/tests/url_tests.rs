use obscura_js::codec::op_encoding_for_label;
use obscura_js::urlops::{op_url_parse_impl, op_url_resolve_impl, op_url_set_impl, text_decode_reply};

#[test]
fn parse_gives_all_components() {
    let j = op_url_parse_impl("https://user:pw@example.com:8080/a/b?x=1#frag", "");
    assert_eq!(
        j,
        "{\"hash\":\"#frag\",\"host\":\"example.com:8080\",\"hostname\":\"example.com\",\
\"href\":\"https://user:pw@example.com:8080/a/b?x=1#frag\",\"ok\":true,\
\"origin\":\"https://example.com:8080\",\"password\":\"pw\",\"pathname\":\"/a/b\",\
\"port\":\"8080\",\"protocol\":\"https:\",\"search\":\"?x=1\",\"username\":\"user\"}"
    );
}

#[test]
fn parse_default_port_is_empty() {
    let j = op_url_parse_impl("http://example.com/", "");
    let v: serde_json::Value = serde_json::from_str(&j).unwrap();
    assert_eq!(v["port"], "");
    assert_eq!(v["host"], "example.com");
    assert_eq!(v["search"], "");
    assert_eq!(v["hash"], "");
}

#[test]
fn parse_against_base() {
    let j = op_url_parse_impl("../c?q", "https://a.com/x/y/z");
    let v: serde_json::Value = serde_json::from_str(&j).unwrap();
    assert_eq!(v["href"], "https://a.com/x/c?q");
    assert_eq!(v["ok"], true);
}

#[test]
fn parse_failure_is_not_ok() {
    assert_eq!(op_url_parse_impl("not a url", ""), "{\"ok\":false}");
    assert_eq!(op_url_parse_impl("x", "also not a url"), "{\"ok\":false}");
}

#[test]
fn resolve_joins_or_gives_empty() {
    assert_eq!(op_url_resolve_impl("../c", "https://a.com/x/y/z"), "https://a.com/x/c");
    assert_eq!(op_url_resolve_impl("https://b.org", ""), "https://b.org/");
    assert_eq!(op_url_resolve_impl("nope", ""), "");
}

fn set(href: &str, part: &str, value: &str) -> serde_json::Value {
    serde_json::from_str(&op_url_set_impl(href, part, value)).unwrap()
}

#[test]
fn set_parts() {
    assert_eq!(set("https://a.com/p", "pathname", "/q")["href"], "https://a.com/q");
    assert_eq!(set("https://a.com/p", "search", "?k=v")["href"], "https://a.com/p?k=v");
    assert_eq!(set("https://a.com/p?k=v", "search", "")["href"], "https://a.com/p");
    assert_eq!(set("https://a.com/p", "hash", "#top")["href"], "https://a.com/p#top");
    assert_eq!(set("https://a.com/p", "port", "8443")["href"], "https://a.com:8443/p");
    assert_eq!(set("https://a.com:8443/p", "port", "")["href"], "https://a.com/p");
    assert_eq!(set("https://a.com/p", "port", "x")["href"], "https://a.com/p");
    assert_eq!(set("https://a.com/p", "hostname", "b.com")["href"], "https://b.com/p");
    assert_eq!(set("https://a.com/p", "hostname", "")["href"], "https://a.com/p");
    assert_eq!(set("https://a.com/p", "username", "me")["href"], "https://me@a.com/p");
    assert_eq!(set("https://me@a.com/p", "password", "pw")["href"], "https://me:pw@a.com/p");
    assert_eq!(set("https://a.com/p", "protocol", "http:")["href"], "http://a.com/p");
    assert_eq!(set("https://a.com/p", "href", "https://z.com/")["href"], "https://z.com/");
    assert_eq!(set("https://a.com/p", "bogus", "x")["href"], "https://a.com/p");
}

#[test]
fn set_host_and_port() {
    assert_eq!(set("https://a.com/p", "host", "b.com:8080")["href"], "https://b.com:8080/p");
    assert_eq!(set("https://a.com:9000/p", "host", "b.com:")["href"], "https://b.com/p");
    assert_eq!(set("https://a.com/p", "host", "[::1]:81")["href"], "https://[::1]:81/p");
    assert_eq!(set("https://a.com/p", "host", "c.com")["href"], "https://c.com/p");
}

#[test]
fn set_falls_back() {
    // An unparsable replacement href leaves the original components.
    assert_eq!(set("https://a.com/p", "href", "::")["href"], "https://a.com/p");
    assert_eq!(op_url_set_impl("garbage", "pathname", "/x"), "{\"ok\":false}");
}

#[test]
fn text_decode_replies() {
    assert_eq!(text_decode_reply(Some("h\"i")), "{\"ok\":true,\"v\":\"h\\\"i\"}");
    assert_eq!(text_decode_reply(None), "{\"ok\":false}");
}

#[test]
fn encoding_labels() {
    assert_eq!(op_encoding_for_label("utf8"), "UTF-8");
    assert_eq!(op_encoding_for_label(" Latin1 "), "windows-1252");
    assert_eq!(op_encoding_for_label("unrecognized label"), "");
}

#[test]
fn edited_url_keeps_its_own_parts() {
    // Setting a path that looks like an authority leaves text that would
    // parse into other parts; the edited URL keeps its own.
    let edited = op_url_set_impl("sc:/x", "pathname", "//u:p@y:80");
    assert!(edited.contains("\"href\":\"sc://u:p@y:80\""));
    assert!(edited.contains("\"hostname\":\"\""));
    assert!(edited.contains("\"pathname\":\"//u:p@y:80\""));
    assert!(edited.contains("\"username\":\"\""));
    let reparsed = op_url_parse_impl("sc://u:p@y:80", "");
    assert!(reparsed.contains("\"hostname\":\"y\""));
    assert!(reparsed.contains("\"username\":\"u\""));
    assert_ne!(edited, reparsed);
}
