use obscura_js::state::{op_binding_called_impl, op_navigate_impl, ObscuraState};

#[test]
fn new_state_defaults() {
    let s = ObscuraState::new();
    assert_eq!(s.url, "about:blank");
    assert_eq!(s.encoding, "UTF-8");
    assert_eq!(s.title, "");
    assert!(s.pending_navigation.is_none());
    assert_eq!(s.intercept_counter, 0);
    assert!(!s.intercept_enabled);
    assert!(!s.has_async_results());
}

#[test]
fn stored_body_reads_back() {
    let mut s = ObscuraState::new();
    let id = s.store_response_body("hello", 5, 128, 1024);
    assert_eq!(id, "fetch-1");
    let b = s.get_network_response_body("fetch-1").unwrap();
    assert_eq!(b.body, "hello");
    assert!(!b.base64_encoded);
    assert!(s.get_network_response_body("fetch-2").is_none());
}

#[test]
fn buffer_evicts_oldest_first() {
    let mut s = ObscuraState::new();
    for i in 0..5 {
        let id = s.store_response_body(&format!("b{}", i), 2, 3, 1024);
        assert_eq!(id, format!("fetch-{}", i + 1));
    }
    assert!(s.get_network_response_body("fetch-1").is_none());
    assert!(s.get_network_response_body("fetch-2").is_none());
    assert_eq!(s.get_network_response_body("fetch-3").unwrap().body, "b2");
    assert_eq!(s.get_network_response_body("fetch-5").unwrap().body, "b4");
}

#[test]
fn buffer_keeps_newest_last_and_drops_only_the_oldest() {
    let mut s = ObscuraState::new();
    for i in 0..4 {
        s.store_response_body(&format!("b{}", i), 2, 2, 1024);
    }
    let ids: Vec<&str> = s.network_response_bodies.iter().map(|(id, _)| id.as_str()).collect();
    assert_eq!(ids, vec!["fetch-3", "fetch-4"]);
    s.set_title("kept");
    s.store_response_body("b4", 2, 2, 1024);
    assert_eq!(s.title, "kept");
    let ids: Vec<&str> = s.network_response_bodies.iter().map(|(id, _)| id.as_str()).collect();
    assert_eq!(ids, vec!["fetch-4", "fetch-5"]);
}

#[test]
fn many_binding_calls_come_back_in_order() {
    let mut s = ObscuraState::new();
    let mut expected = Vec::new();
    for i in 0..20 {
        let name = format!("fn{}", i);
        let payload = format!("{}", i * i);
        op_binding_called_impl(&mut s, &name, &payload);
        expected.push((name, payload));
    }
    assert_eq!(s.take_pending_binding_calls(), expected);
    assert!(s.take_pending_binding_calls().is_empty());
}

#[test]
fn setters_leave_other_fields_alone() {
    let mut s = ObscuraState::new();
    s.set_blocked_urls(vec!["ads".to_string()]);
    op_binding_called_impl(&mut s, "f", "1");
    s.set_title("T");
    assert_eq!(s.blocked_urls, vec!["ads".to_string()]);
    assert_eq!(s.pending_binding_calls.len(), 1);
}

#[test]
fn buffer_limits_off_or_too_big() {
    let mut s = ObscuraState::new();
    assert_eq!(s.store_response_body("x", 1, 0, 1024), "fetch-1");
    assert!(s.get_network_response_body("fetch-1").is_none());
    assert_eq!(s.store_response_body("x", 1, 8, 0), "fetch-2");
    assert!(s.get_network_response_body("fetch-2").is_none());
    assert_eq!(s.store_response_body("xyz", 3, 8, 2), "fetch-3");
    assert!(s.get_network_response_body("fetch-3").is_none());
    assert_eq!(s.store_response_body("xy", 2, 8, 2), "fetch-4");
    assert_eq!(s.get_network_response_body("fetch-4").unwrap().body, "xy");
}

#[test]
fn clearing_drops_every_body() {
    let mut s = ObscuraState::new();
    s.store_response_body("a", 1, 8, 8);
    s.store_response_body("b", 1, 8, 8);
    s.clear_network_response_bodies();
    assert!(s.get_network_response_body("fetch-1").is_none());
    assert!(s.get_network_response_body("fetch-2").is_none());
    // The counter keeps going.
    assert_eq!(s.store_response_body("c", 1, 8, 8), "fetch-3");
}

#[test]
fn navigation_and_bindings_are_queued() {
    let mut s = ObscuraState::new();
    op_navigate_impl(&mut s, "https://a.com/", "POST", "k=v");
    assert_eq!(s.url, "https://a.com/");
    op_navigate_impl(&mut s, "https://b.com/", "GET", "");
    assert_eq!(
        s.take_pending_navigation(),
        Some(("https://b.com/".to_string(), "GET".to_string(), String::new()))
    );
    assert!(s.take_pending_navigation().is_none());
    op_binding_called_impl(&mut s, "f", "1");
    op_binding_called_impl(&mut s, "g", "2");
    assert_eq!(
        s.take_pending_binding_calls(),
        vec![("f".to_string(), "1".to_string()), ("g".to_string(), "2".to_string())]
    );
    assert!(s.take_pending_binding_calls().is_empty());
}

#[test]
fn async_results_replace_and_drain() {
    let mut s = ObscuraState::new();
    s.complete_async(7, Ok("a".to_string()));
    s.complete_async(9, Err("e".to_string()));
    s.complete_async(7, Ok("b".to_string()));
    assert!(s.has_async_results());
    let mut all = s.take_async_results();
    all.sort_by_key(|p| p.0);
    assert_eq!(all, vec![(7, Ok("b".to_string())), (9, Err("e".to_string()))]);
    assert!(!s.has_async_results());
}

#[test]
fn setters() {
    let mut s = ObscuraState::new();
    s.set_url("https://x.org/");
    s.set_title("T");
    s.set_encoding("windows-1252");
    s.record_fetched_url("https://x.org/a.js");
    assert_eq!(s.url, "https://x.org/");
    assert_eq!(s.title, "T");
    assert_eq!(s.encoding, "windows-1252");
    assert_eq!(s.fetched_urls(), vec!["https://x.org/a.js".to_string()]);
}
