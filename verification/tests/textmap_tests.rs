use obscura_js::textmap::{collect_headers, TextMap};

#[test]
fn put_get_remove() {
    let mut m = TextMap::new();
    m.put("b", "1");
    m.put("a", "2");
    m.put("b", "3");
    assert_eq!(m.get("a"), Some("2".to_string()));
    assert_eq!(m.get("b"), Some("3".to_string()));
    assert_eq!(m.get("c"), None);
    assert_eq!(m.to_json(), "{\"a\":\"2\",\"b\":\"3\"}");
    m.remove("a");
    assert_eq!(m.get("a"), None);
    assert_eq!(m.to_json(), "{\"b\":\"3\"}");
    m.clear();
    assert_eq!(m.to_json(), "{}");
}

#[test]
fn names_in_code_point_order() {
    let pairs = vec![
        ("content-type".to_string(), "text/html".to_string()),
        ("Content-Type".to_string(), "x".to_string()),
        ("é".to_string(), "e".to_string()),
        ("a".to_string(), "q\"".to_string()),
        ("ab".to_string(), "r".to_string()),
    ];
    let m = collect_headers(&pairs);
    assert_eq!(
        m.to_json(),
        "{\"Content-Type\":\"x\",\"a\":\"q\\\"\",\"ab\":\"r\",\"content-type\":\"text/html\",\"é\":\"e\"}"
    );
    // The same order serde_json gives to a map of these names.
    let mut v = serde_json::Map::new();
    for (k, val) in &pairs {
        v.insert(k.clone(), serde_json::Value::String(val.clone()));
    }
    assert_eq!(m.to_json(), serde_json::Value::Object(v).to_string());
}
