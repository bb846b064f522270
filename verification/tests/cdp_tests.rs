use obscura_js::cdp::{
    bootstrap_outcome, build_args, call_await_code, call_meta_code, call_value_code, cleaned_expression,
    done_sentinel, eval_json_code, eval_outcome, fetch_request_from, info_from_json, info_from_meta, make_oid,
    meta_extract_js, needs_guard, platform_script, reject_code, rejection_code, rejection_error, release_group_code,
    resolve_code, retrieval_expr, script_outcome, settle_code, stealth_script, store_code, store_meta_code,
    sync_eval_code, await_eval_code, token_watch_step, user_agent_script, wrap_expression, CdpArgument, JsonValue,
    MetaFields, ObjectStore, QueuedFetch, TokenWatch,
};

#[test]
fn object_ids() {
    assert_eq!(make_oid(3), "{\"injectedScriptId\":1,\"id\":3}");
    assert_eq!(retrieval_expr("k"), "globalThis.__obscura_objects['k']");
}

#[test]
fn expression_wrapping() {
    assert_eq!(
        wrap_expression("  1 + 2 ;  "),
        "(function() { try { return (\n1 + 2\n); } catch(e) { return null; } })()"
    );
    assert_eq!(
        wrap_expression(" var x = 1; x"),
        "(function() { try {\n var x = 1; x\n} catch(e) { return null; } })()"
    );
    assert_eq!(
        wrap_expression("return 5"),
        "(function() { try {\nreturn 5\n} catch(e) { return null; } })()"
    );
    assert_eq!(wrap_expression("letter"), "(function() { try { return (\nletter\n); } catch(e) { return null; } })()");
    assert_eq!(cleaned_expression("  a.b();;\n "), "a.b()");
}

#[test]
fn json_wrapper_and_meta() {
    assert_eq!(
        eval_json_code("x"),
        "(function() { var __r = (x); return typeof __r === 'undefined' ? 'null' : JSON.stringify(__r); })()"
    );
    let m = meta_extract_js("v1");
    assert!(m.starts_with("(function(v) {\n                var t = typeof v;"));
    assert!(m.ends_with("})(v1)"));
}

#[test]
fn evaluation_code() {
    let s = sync_eval_code("1+1", "OID");
    assert!(s.starts_with("(function() {\nvar __result;\ntry { __result = (\n1+1\n); } catch(e) { __result = undefined; }\nglobalThis.__obscura_objects['OID'] = __result;\nreturn (function(v)"));
    assert!(s.ends_with("})(__result);\n})()"));
    let a = await_eval_code("p", "O", 12);
    assert!(a.starts_with("(async function() {\ntry {\nvar __result = await (\np\n);\nglobalThis.__obscura_objects['O'] = __result;\n"));
    assert!(a.ends_with("globalThis.__obscura_await_rejected = true;\n}\nglobalThis.__obscura_done_12 = true;\n})()"));
    assert_eq!(done_sentinel(12), "globalThis.__obscura_done_12 === true");
    assert_eq!(
        rejection_code("O"),
        "String(globalThis.__obscura_objects['O'] && (globalThis.__obscura_objects['O'].message || globalThis.__obscura_objects['O']))"
    );
    assert_eq!(rejection_error("boom"), "Promise rejected: boom");
}

#[test]
fn call_code() {
    assert_eq!(
        call_value_code("var __arg0 = 1;", "function(a){return a}", "globalThis", "__arg0"),
        "(function() {\nvar __arg0 = 1;\nvar __fn = (function(a){return a});\nvar __this = (globalThis);\nreturn __fn.call(__this, __arg0);\n})()"
    );
    let m = call_meta_code("", "f", "t", "", "O");
    assert!(m.starts_with("(function() {\n\nvar __fn = (f);\nvar __this = (t);\nvar __result = __fn.call(__this, );\nglobalThis.__obscura_objects['O'] = __result;\nreturn (function(v)"));
    let w = call_await_code("", "f", "t", "", "O", 4);
    assert!(w.contains("__result = await __fn.call(__this, );"));
    assert!(w.ends_with("} finally {\nglobalThis.__obscura_done_4 = true;\n}\n})()"));
    assert_eq!(store_code("O", "1+1"), "globalThis.__obscura_objects['O'] = (1+1);");
    assert!(store_meta_code("e", "O").starts_with("(function() {\nvar __result = (\ne\n);\nglobalThis.__obscura_objects['O'] = __result;\nreturn "));
    assert_eq!(release_group_code(), "globalThis.__obscura_objects = {};");
}

#[test]
fn settling_code() {
    let r = resolve_code(5, "{\"a\":1}");
    assert!(r.contains("globalThis.__obscura_search_resolvers[5]) {"));
    assert!(r.contains("r.resolve({\"a\":1});"));
    let j = reject_code(5, "it's \\ bad");
    assert!(j.contains("r.reject(new Error('it\\'s \\\\ bad'));"));
    assert_eq!(settle_code(5, &Ok("{\"a\":1}".to_string())), r);
    assert_eq!(settle_code(5, &Err("it's \\ bad".to_string())), j);
}

#[test]
fn page_settings_scripts() {
    assert_eq!(user_agent_script("Mo'z\\"), "globalThis.__obscura_ua = 'Mo\\'z\\\\';");
    assert_eq!(
        platform_script("Lin'ux", "x\\y", "1"),
        "globalThis.__obscura_platform='Lin\\'ux';globalThis.__obscura_ua_platform='x\\y';globalThis.__obscura_ua_platform_version='1';"
    );
    assert_eq!(stealth_script(true), "globalThis.__obscura_stealth = true;");
    assert_eq!(stealth_script(false), "globalThis.__obscura_stealth = false;");
}

#[test]
fn object_store_keeps_and_releases() {
    let mut st = ObjectStore::new();
    let oid = st.next_oid();
    assert_eq!(oid, "{\"injectedScriptId\":1,\"id\":1}");
    st.keep(&oid);
    assert_eq!(st.get(&oid), Some("globalThis.__obscura_objects['{\"injectedScriptId\":1,\"id\":1}']".to_string()));
    let other = st.next_oid();
    assert_ne!(oid, other);
    st.insert(&other, "E");
    assert_eq!(st.release(&oid), Some(format!("delete {}", retrieval_expr(&oid))));
    assert_eq!(st.get(&oid), None);
    assert_eq!(st.get(&other), Some("E".to_string()));
    assert_eq!(st.release(&oid), None);
    st.clear();
    assert_eq!(st.get(&other), None);
    assert_eq!(st.counter(), 2);
}

#[test]
fn this_expressions() {
    let mut st = ObjectStore::new();
    st.insert("k", "KEPT");
    assert_eq!(st.resolve_this(Some("k")), "KEPT");
    assert_eq!(
        st.resolve_this(Some("node-42")),
        "(function() { var nid = 42; var cache = globalThis._cache || new Map(); if (cache.has(nid)) return cache.get(nid); return null; })()"
    );
    assert_eq!(st.resolve_this(Some("other")), "globalThis");
    assert_eq!(st.resolve_this(None), "globalThis");
}

#[test]
fn call_arguments() {
    let mut st = ObjectStore::new();
    st.insert("o1", "OBJ");
    let args = vec![
        CdpArgument::Value("{\"a\":[1,2]}".to_string()),
        CdpArgument::ObjectId("o1".to_string()),
        CdpArgument::ObjectId("gone".to_string()),
        CdpArgument::Unserializable("NaN".to_string()),
        CdpArgument::Missing,
    ];
    let (setup, list) = build_args(&st, &args);
    assert_eq!(
        setup,
        "var __arg0 = {\"a\":[1,2]};\nvar __arg1 = OBJ;\nvar __arg2 = undefined;\nvar __arg3 = NaN;\nvar __arg4 = undefined;"
    );
    assert_eq!(list, "__arg0, __arg1, __arg2, __arg3, __arg4");
    assert_eq!(build_args(&st, &vec![]), (String::new(), String::new()));
}

#[test]
fn remote_objects_from_values() {
    let n = info_from_json(&JsonValue::Null);
    assert_eq!((n.js_type.as_str(), n.subtype.as_deref(), n.description.as_str(), n.value.as_deref()), ("object", Some("null"), "null", Some("null")));
    let b = info_from_json(&JsonValue::Bool(true));
    assert_eq!((b.js_type.as_str(), b.description.as_str(), b.value.as_deref()), ("boolean", "true", Some("true")));
    let x = info_from_json(&JsonValue::Number("2.5".to_string()));
    assert_eq!((x.js_type.as_str(), x.description.as_str()), ("number", "2.5"));
    let s = info_from_json(&JsonValue::Str("a\"b".to_string()));
    assert_eq!((s.js_type.as_str(), s.description.as_str(), s.value.as_deref()), ("string", "a\"b", Some("\"a\\\"b\"")));
    let o = info_from_json(&JsonValue::Other("[1]".to_string()));
    assert_eq!((o.js_type.as_str(), o.class_name.as_str(), o.description.as_str()), ("object", "Object", "[1]"));
}

#[test]
fn remote_objects_from_descriptions() {
    let m = MetaFields { js_type: None, subtype: None, class_name: None, description: None };
    let i = info_from_meta(m, Some("O".to_string()));
    assert_eq!((i.js_type.as_str(), i.value.as_deref(), i.object_id.as_deref()), ("undefined", Some("null"), Some("O")));
    let m2 = MetaFields {
        js_type: Some("object".to_string()),
        subtype: Some("null".to_string()),
        class_name: None,
        description: Some("null".to_string()),
    };
    assert_eq!(info_from_meta(m2, None).value.as_deref(), Some("null"));
    let m3 = MetaFields {
        js_type: Some("object".to_string()),
        subtype: Some("array".to_string()),
        class_name: Some("Array".to_string()),
        description: Some("Array(2)".to_string()),
    };
    let i3 = info_from_meta(m3, None);
    assert_eq!((i3.class_name.as_str(), i3.description.as_str(), i3.value.is_none()), ("Array", "Array(2)", true));
}

#[test]
fn outcomes() {
    assert!(matches!(eval_outcome(Ok(JsonValue::Null), false), Ok(JsonValue::Null)));
    assert_eq!(eval_outcome(Ok(JsonValue::Null), true).err(), Some("eval timed out".to_string()));
    assert_eq!(eval_outcome(Err("InternalError: interrupted".to_string()), false).err(), Some("eval timed out".to_string()));
    assert_eq!(eval_outcome(Err("boom".to_string()), false).err(), Some("boom".to_string()));
    assert_eq!(script_outcome(Ok(()), true), Ok(()));
    assert_eq!(script_outcome(Err("boom".to_string()), true), Ok(()));
    assert_eq!(script_outcome(Err("interrupted".to_string()), false), Ok(()));
    assert_eq!(script_outcome(Err("boom".to_string()), false), Err("JS error: boom".to_string()));
    assert!(!needs_guard("short"));
    assert!(needs_guard(&"x".repeat(10_000)));
    assert_eq!(bootstrap_outcome("OK"), Ok(()));
    assert_eq!(bootstrap_outcome("ERR:bad\n@@@stack"), Err("bad\n@@@stack".to_string()));
    assert_eq!(token_watch_step(true, 0, 10), TokenWatch::Stop);
    assert_eq!(token_watch_step(false, 10, 10), TokenWatch::Fire);
    assert_eq!(token_watch_step(false, 4, 10), TokenWatch::Wait(6));
}

#[test]
fn queued_fetch_defaults() {
    let q = QueuedFetch { id: None, url: None, method: None, headers: None, body: None, origin: None, mode: None };
    let r = fetch_request_from(q);
    assert_eq!((r.id, r.url.as_str(), r.method.as_str(), r.headers.as_str(), r.body.as_str()), (0, "", "GET", "{}", ""));
    let q2 = QueuedFetch {
        id: Some(3),
        url: Some("u".to_string()),
        method: Some("PUT".to_string()),
        headers: Some("{\"a\":\"b\"}".to_string()),
        body: Some("x".to_string()),
        origin: Some("o".to_string()),
        mode: Some("cors".to_string()),
    };
    let r2 = fetch_request_from(q2);
    assert_eq!((r2.id, r2.method.as_str(), r2.mode.as_str()), (3, "PUT", "cors"));
}
