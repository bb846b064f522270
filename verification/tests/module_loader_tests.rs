use obscura_js::module_loader::{check_module_status, ObscuraModuleLoader};
use obscura_js::set_v8_flags;

#[test]
fn construction() {
    let l = ObscuraModuleLoader::new("https://a.com/page.html");
    assert_eq!(l.base_url, "https://a.com/page.html");
    assert!(l.proxy_url.is_none());
    let p = ObscuraModuleLoader::with_proxy("about:blank", Some("http://proxy:8080".to_string()));
    assert_eq!(p.proxy_url.as_deref(), Some("http://proxy:8080"));
    set_v8_flags("--anything");
}

#[test]
fn resolution() {
    let l = ObscuraModuleLoader::new("https://a.com/app/index.html");
    assert_eq!(l.resolve("", "./m.js"), Ok("https://a.com/app/m.js".to_string()));
    assert_eq!(l.resolve("<eval>", "/lib.js"), Ok("https://a.com/lib.js".to_string()));
    assert_eq!(l.resolve(".", "x.js"), Ok("https://a.com/app/x.js".to_string()));
    assert_eq!(l.resolve("about:blank", "x.js"), Ok("https://a.com/app/x.js".to_string()));
    assert_eq!(l.resolve("https://cdn.org/pkg/main.js", "./dep.js"), Ok("https://cdn.org/pkg/dep.js".to_string()));
    assert_eq!(l.resolve("not a url", "x.js"), Err("relative URL without a base".to_string()));
    let blank = ObscuraModuleLoader::new("about:blank");
    assert!(blank.resolve("", "x.js").is_err());
}

#[test]
fn module_status() {
    assert_eq!(check_module_status("u", 200, "200 OK"), Ok(()));
    assert_eq!(
        check_module_status("https://a.com/m.js", 404, "404 Not Found"),
        Err("Module https://a.com/m.js returned HTTP 404 Not Found".to_string())
    );
}
