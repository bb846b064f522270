use obscura_js::fetch::{
    begin_fetch, blocked_reply, buffer_limit, check_cors_response, check_fetch_url, check_preflight, check_rewrite,
    cors_context, effective_method, fetch_host_address, fetch_timeout_ms, finish_fetch, intercept_step,
    is_redirection, needs_default_user_agent, needs_preflight, preflight_header_list, redirect_step, redirect_target,
    request_origin, response_body_byte_limit, response_body_entry_limit, url_host_address, FetchStart, InterceptResolution, InterceptStep, RedirectStep,
};
use obscura_js::state::ObscuraState;

fn names(v: &[&str]) -> Vec<String> {
    v.iter().map(|s| s.to_string()).collect()
}

#[test]
fn url_checks() {
    assert_eq!(check_fetch_url("https://example.com/", false, false), Ok(()));
    assert_eq!(check_fetch_url("file:///etc/hosts", false, true), Ok(()));
    assert_eq!(
        check_fetch_url("ftp://example.com/", false, false),
        Err("Forbidden URL scheme 'ftp' - only http, https, and file are allowed".to_string())
    );
    assert_eq!(
        check_fetch_url("http://10.0.0.1/", false, true),
        Err("Access to private/internal IP address 10.0.0.1 is not allowed".to_string())
    );
    assert_eq!(check_fetch_url("http://10.0.0.1/", true, true), Ok(()));
    assert_eq!(
        check_fetch_url("http://[::1]/", false, true),
        Err("Access to private/internal IPv6 address ::1 is not allowed".to_string())
    );
    assert_eq!(
        check_fetch_url("http://LOCALHOST/", false, false),
        Err("Access to localhost domain 'localhost' is not allowed".to_string())
    );
    assert_eq!(
        check_fetch_url("http://api.localhost:3000/", false, false),
        Err("Access to localhost domain 'api.localhost' is not allowed".to_string())
    );
    assert_eq!(check_fetch_url("not a url", false, false), Ok(()));
}

#[test]
fn host_addresses() {
    assert_eq!(fetch_host_address("http://192.168.1.2:8080/x"), Some("192.168.1.2".to_string()));
    assert_eq!(fetch_host_address("http://[fe80::1]/"), Some("fe80::1".to_string()));
    assert_eq!(fetch_host_address("http://example.com/"), None);
    assert_eq!(fetch_host_address("garbage"), None);
}

#[test]
fn blocked_and_admitted_fetches() {
    let mut s = ObscuraState::new();
    s.set_blocked_urls(vec!["ads".to_string()]);
    match begin_fetch(&mut s, "https://ads.com/x", true) {
        FetchStart::Blocked(j) => assert_eq!(
            j,
            "{\"blocked\":true,\"body\":\"\",\"headers\":{},\"status\":0,\"url\":\"https://ads.com/x\"}"
        ),
        _ => panic!("expected a blocked reply"),
    }
    assert!(s.fetched_urls().is_empty());
    match begin_fetch(&mut s, "https://ok.com/", true) {
        FetchStart::Proceed { intercept_id } => assert_eq!(intercept_id, None),
        _ => panic!("expected to proceed"),
    }
    s.set_intercept_enabled(true);
    match begin_fetch(&mut s, "https://ok.com/2", true) {
        FetchStart::Proceed { intercept_id } => assert_eq!(intercept_id, Some("intercept-1".to_string())),
        _ => panic!("expected to proceed"),
    }
    match begin_fetch(&mut s, "https://ok.com/3", false) {
        FetchStart::Proceed { intercept_id } => assert_eq!(intercept_id, None),
        _ => panic!("expected to proceed"),
    }
    assert_eq!(s.fetched_urls(), names(&["https://ok.com/", "https://ok.com/2", "https://ok.com/3"]));
}

#[test]
fn interception_outcomes() {
    let f = intercept_step(
        InterceptResolution::Fulfill {
            status: 201,
            headers: vec![("x-b".to_string(), "2".to_string()), ("x-a".to_string(), "1".to_string())],
            body: "hi".to_string(),
        },
        "https://a.com/",
    );
    match f {
        InterceptStep::Reply(j) => assert_eq!(
            j,
            "{\"body\":\"hi\",\"headers\":{\"x-a\":\"1\",\"x-b\":\"2\"},\"status\":201,\"url\":\"https://a.com/\"}"
        ),
        _ => panic!("expected a reply"),
    }
    match intercept_step(InterceptResolution::Fail { reason: "nope".to_string() }, "https://a.com/") {
        InterceptStep::Reply(j) => assert_eq!(
            j,
            "{\"blocked\":true,\"body\":\"\",\"error\":\"nope\",\"headers\":{},\"status\":0,\"url\":\"https://a.com/\"}"
        ),
        _ => panic!("expected a reply"),
    }
    match intercept_step(
        InterceptResolution::Continue { url: Some("https://b.com/".to_string()), method: None, headers: None, body: None },
        "https://a.com/",
    ) {
        InterceptStep::Continue { url, method, .. } => {
            assert_eq!(url, Some("https://b.com/".to_string()));
            assert_eq!(method, None);
        },
        _ => panic!("expected to continue"),
    }
    assert_eq!(check_rewrite("https://b.com/", false, false), None);
    assert_eq!(
        check_rewrite("gopher://b.com/", false, false),
        Some(
            "{\"blocked\":true,\"body\":\"\",\"error\":\"Intercept rewrite to forbidden URL blocked: Forbidden URL scheme 'gopher' - only http, https, and file are allowed\",\"headers\":{},\"status\":0,\"url\":\"gopher://b.com/\"}"
                .to_string()
        )
    );
}

#[test]
fn origins() {
    assert_eq!(request_origin("https://a.com:8443/x"), "https://a.com:8443");
    assert_eq!(request_origin("https://a.com:443/x"), "https://a.com");
    assert_eq!(request_origin("nope"), "");
    assert_eq!(cors_context("https://a.com/x", ""), ("https://a.com".to_string(), false));
    assert_eq!(cors_context("https://a.com/x", "https://a.com"), ("https://a.com".to_string(), false));
    assert_eq!(cors_context("https://a.com/x", "https://b.com"), ("https://b.com".to_string(), true));
    assert_eq!(cors_context("nope", ""), (String::new(), false));
}

#[test]
fn methods_and_preflight() {
    assert_eq!(effective_method("POST"), "POST");
    assert_eq!(effective_method("PROPFIND"), "PROPFIND");
    assert_eq!(effective_method("get"), "get");
    assert_eq!(effective_method("BAD METHOD"), "GET");
    assert_eq!(effective_method(""), "GET");
    assert!(!needs_preflight(true, "cors", "GET", &names(&["Accept", "Content-Type"])));
    assert!(needs_preflight(true, "cors", "PUT", &names(&[])));
    assert!(needs_preflight(true, "cors", "POST", &names(&["X-Custom"])));
    assert!(!needs_preflight(false, "cors", "PUT", &names(&["X-Custom"])));
    assert!(!needs_preflight(true, "no-cors", "PUT", &names(&["X-Custom"])));
    assert_eq!(preflight_header_list(&names(&["a", "b", "c"])), "a, b, c");
    assert_eq!(preflight_header_list(&names(&[])), "");
    assert_eq!(check_preflight("https://a.com", Some("*")), Ok(()));
    assert_eq!(check_preflight("https://a.com", Some("https://a.com")), Ok(()));
    assert_eq!(
        check_preflight("https://a.com", None),
        Err("CORS preflight: Origin 'https://a.com' not allowed by Access-Control-Allow-Origin ''".to_string())
    );
    assert!(needs_default_user_agent(&names(&["Accept"])));
    assert!(!needs_default_user_agent(&names(&["User-AGENT"])));
}

#[test]
fn cors_response_checks() {
    assert_eq!(check_cors_response(true, "cors", "https://a.com", Some("*"), "https://b.com/"), None);
    assert_eq!(check_cors_response(false, "cors", "https://a.com", None, "https://b.com/"), None);
    assert_eq!(
        check_cors_response(true, "cors", "https://a.com", Some("https://c.com"), "https://b.com/"),
        Some(
            "{\"body\":\"\",\"corsBlocked\":true,\"corsError\":\"CORS error: Origin 'https://a.com' not in Access-Control-Allow-Origin 'https://c.com'\",\"headers\":{},\"status\":0,\"url\":\"https://b.com/\"}"
                .to_string()
        )
    );
}

#[test]
fn redirects() {
    assert!(is_redirection(301));
    assert!(is_redirection(399));
    assert!(!is_redirection(200));
    assert!(!is_redirection(400));
    let next = redirect_target("https://a.com/x/y", "../z").unwrap();
    assert_eq!(next.href(), "https://a.com/z");
    assert!(redirect_target("nope", "/z").is_none());
    assert_eq!(url_host_address(&next), None);
    match redirect_step(&next, false, false, 0, 302, "POST") {
        RedirectStep::Follow { url, method, clear_body, followed } => {
            assert_eq!(url, "https://a.com/z");
            assert_eq!(method, "GET");
            assert!(clear_body);
            assert_eq!(followed, 1);
        },
        _ => panic!("expected to follow"),
    }
    match redirect_step(&next, false, false, 3, 307, "POST") {
        RedirectStep::Follow { method, clear_body, followed, .. } => {
            assert_eq!(method, "POST");
            assert!(!clear_body);
            assert_eq!(followed, 4);
        },
        _ => panic!("expected to follow"),
    }
    match redirect_step(&next, false, false, 10, 302, "GET") {
        RedirectStep::Blocked(j) => assert_eq!(
            j,
            "{\"blocked\":true,\"body\":\"\",\"error\":\"Too many redirects (>10)\",\"headers\":{},\"status\":0,\"url\":\"https://a.com/z\"}"
        ),
        _ => panic!("expected a block"),
    }
    let local = redirect_target("https://a.com/", "http://localhost/").unwrap();
    match redirect_step(&local, false, false, 0, 302, "GET") {
        RedirectStep::Blocked(j) => assert!(j.contains("Redirect to forbidden URL blocked: Access to localhost domain")),
        _ => panic!("expected a block"),
    }
}

#[test]
fn completion_buffers_and_replies() {
    let mut s = ObscuraState::new();
    let headers = vec![("b".to_string(), "1".to_string()), ("a".to_string(), "2".to_string()), ("b".to_string(), "3".to_string())];
    let j = finish_fetch(&mut s, 200, &headers, b"hi", "https://a.com/", 128, 1024);
    assert_eq!(
        j,
        "{\"body\":\"hi\",\"bodyBase64\":\"aGk=\",\"headers\":{\"a\":\"2\",\"b\":\"3\"},\"requestId\":\"fetch-1\",\"status\":200,\"url\":\"https://a.com/\"}"
    );
    assert_eq!(s.get_network_response_body("fetch-1").unwrap().body, "hi");
    // Over the byte limit: the id is given but nothing is buffered.
    let j2 = finish_fetch(&mut s, 404, &vec![], &[0xff, 0x61], "https://a.com/2", 128, 1);
    assert!(j2.contains("\"requestId\":\"fetch-2\""));
    assert!(j2.contains("\"body\":\"\u{fffd}a\""));
    assert!(s.get_network_response_body("fetch-2").is_none());
    assert!(s.get_network_response_body("fetch-1").is_some());
}

#[test]
fn settings() {
    assert_eq!(buffer_limit(None, 128), 128);
    assert_eq!(buffer_limit(Some("5"), 128), 5);
    assert_eq!(buffer_limit(Some("+7"), 128), 7);
    assert_eq!(buffer_limit(Some("-1"), 128), 128);
    assert_eq!(buffer_limit(Some(" 5"), 128), 128);
    assert_eq!(fetch_timeout_ms(None), 30000);
    assert_eq!(fetch_timeout_ms(Some("1500")), 1500);
    assert_eq!(fetch_timeout_ms(Some("18446744073709551616")), 30000);
    assert_eq!(blocked_reply("u", Some("e")), "{\"blocked\":true,\"body\":\"\",\"error\":\"e\",\"headers\":{},\"status\":0,\"url\":\"u\"}");
}

#[test]
fn body_buffer_defaults() {
    assert_eq!(response_body_entry_limit(None), 128);
    assert_eq!(response_body_entry_limit(Some("16")), 16);
    assert_eq!(response_body_entry_limit(Some("many")), 128);
    assert_eq!(response_body_byte_limit(None), 2 * 1024 * 1024);
    assert_eq!(response_body_byte_limit(Some("0")), 0);
    assert_eq!(response_body_byte_limit(Some("-3")), 2 * 1024 * 1024);
}

#[test]
fn full_intercept_counter_is_fine_without_interception() {
    let mut s = ObscuraState::new();
    s.intercept_counter = u64::MAX;
    match begin_fetch(&mut s, "https://a.com/", false) {
        FetchStart::Proceed { intercept_id } => assert!(intercept_id.is_none()),
        FetchStart::Blocked(_) => panic!("not blocked"),
    }
}
