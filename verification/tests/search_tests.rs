use obscura_js::html::{extract_ddg_url, hits_to_json, parse_bing_results, parse_ddg_results, strip_html_tags, SearchHit};
use obscura_js::search::{
    bing_search_reply, bing_search_url, ddg_search_url, dedup_hits, normalize_url, snippet_weight, source_priority,
    title_hits, web_search_reply, wikipedia_reply, wikipedia_search_url, MetaHit, WikiItem,
};

const DDG_PAGE: &str = "<div><a rel=\"nofollow\" class=\"result__a\" href=\"//duckduckgo.com/l/?uddg=https%3A%2F%2Fexample.com%2Fpage&amp;rut=abc\">Example <b>Page</b></a>\
<a class=\"result__snippet\" href=\"x\">A &amp; B snippet</a></div>\
<a rel=\"nofollow\" class=\"result__a\" href=\"https://second.org/\">Second</a>";

const BING_PAGE: &str = "<ol><li class=\"b_algo\"><h2><a href=\"https://bing-result.com/x\">Bing <strong>Title</strong></a></h2>\
<p>Bing snippet &lt;here&gt;</p></li><li class=\"b_algo\"><h2><a href=\"/relative\">Skipped</a></h2></li></ol>";

#[test]
fn strip_tags_and_entities() {
    assert_eq!(strip_html_tags("<b>a</b> &amp; <i>b</i>&nbsp;&lt;c&gt; &quot;d&#39;&#x27;"), "a & b <c> \"d''");
    assert_eq!(strip_html_tags("no tags"), "no tags");
}

#[test]
fn ddg_redirect_urls() {
    assert_eq!(extract_ddg_url("//duckduckgo.com/l/?uddg=https%3A%2F%2Fa.com%2F&rut=1"), "https://a.com/");
    assert_eq!(extract_ddg_url("https://direct.com/"), "https://direct.com/");
    assert_eq!(extract_ddg_url("/relative"), "/relative");
}

#[test]
fn ddg_results() {
    let hits = parse_ddg_results(DDG_PAGE);
    assert_eq!(hits.len(), 2);
    assert_eq!(hits[0].title, "Example Page");
    assert_eq!(hits[0].url, "https://example.com/page");
    assert_eq!(hits[0].snippet, "A & B snippet");
    assert_eq!(hits[1].title, "Second");
    assert_eq!(hits[1].url, "https://second.org/");
    assert_eq!(hits[1].snippet, "");
    assert_eq!(
        web_search_reply(DDG_PAGE),
        "[{\"snippet\":\"A & B snippet\",\"title\":\"Example Page\",\"url\":\"https://example.com/page\"},\
{\"snippet\":\"\",\"title\":\"Second\",\"url\":\"https://second.org/\"}]"
    );
    assert_eq!(web_search_reply("<html>nothing</html>"), "[]");
}

#[test]
fn bing_results() {
    let hits = parse_bing_results(BING_PAGE);
    assert_eq!(hits.len(), 1);
    assert_eq!(hits[0].title, "Bing Title");
    assert_eq!(hits[0].url, "https://bing-result.com/x");
    assert_eq!(hits[0].snippet, "Bing snippet <here>");
    assert_eq!(
        bing_search_reply(BING_PAGE),
        "[{\"snippet\":\"Bing snippet <here>\",\"title\":\"Bing Title\",\"url\":\"https://bing-result.com/x\"}]"
    );
}

#[test]
fn hits_serialize_with_sorted_keys() {
    let hits = vec![SearchHit { title: "t\"".to_string(), url: "u".to_string(), snippet: "s".to_string() }];
    assert_eq!(hits_to_json(&hits), "[{\"snippet\":\"s\",\"title\":\"t\\\"\",\"url\":\"u\"}]");
}

#[test]
fn search_urls_percent_encode_the_query() {
    assert_eq!(ddg_search_url("rust lang"), "https://html.duckduckgo.com/html/?q=rust%20lang");
    assert_eq!(bing_search_url("a&b=c/é"), "https://www.bing.com/search?q=a%26b%3Dc%2F%C3%A9&count=20");
    assert_eq!(
        wikipedia_search_url("x-y_z.~"),
        "https://en.wikipedia.org/w/api.php?action=query&list=search&srsearch=x-y_z.~&format=json&srlimit=5&srprop=snippet"
    );
}

#[test]
fn wikipedia_items() {
    let items = vec![
        WikiItem { title: "Rust".to_string(), snippet: "A <span class=\"m\">language</span>  ".to_string(), pageid: 123 },
        WikiItem { title: String::new(), snippet: "dropped".to_string(), pageid: 1 },
        WikiItem { title: "Neg".to_string(), snippet: String::new(), pageid: -5 },
    ];
    assert_eq!(
        wikipedia_reply(&items),
        "[{\"snippet\":\"A language\",\"title\":\"Rust\",\"url\":\"https://en.wikipedia.org/?curid=123\"},\
{\"snippet\":\"\",\"title\":\"Neg\",\"url\":\"https://en.wikipedia.org/?curid=-5\"}]"
    );
}

#[test]
fn url_normalization() {
    assert_eq!(normalize_url("HTTPS://Example.com/Path/#frag"), "example.com/path");
    assert_eq!(normalize_url("https://a.com/x?y=1"), "a.com/xy=1");
    assert_eq!(normalize_url("not a url/"), "not a url");
    assert_eq!(normalize_url(""), "");
}

fn hit(url: &str, source: &str) -> MetaHit {
    MetaHit { title: "t".to_string(), url: url.to_string(), snippet: String::new(), source: source.to_string() }
}

#[test]
fn dedup_keeps_first_of_each_key() {
    let hits = vec![
        hit("https://a.com/x/", "duckduckgo"),
        hit("HTTPS://A.COM/x#f", "bing"),
        hit("", "bing"),
        hit("https://b.com/", "wikipedia"),
    ];
    let kept = dedup_hits(&hits);
    assert_eq!(kept.len(), 2);
    assert_eq!(kept[0].source, "duckduckgo");
    assert_eq!(kept[1].url, "https://b.com/");
}

#[test]
fn ranking_parts() {
    assert_eq!(source_priority("wikipedia"), 15);
    assert_eq!(source_priority("duckduckgo"), 10);
    assert_eq!(source_priority("bing"), 8);
    assert_eq!(source_priority("other"), 5);
    assert_eq!(snippet_weight("abc"), 3);
    assert_eq!(snippet_weight("é"), 2);
    assert_eq!(snippet_weight(&"x".repeat(500)), 300);
    assert_eq!(title_hits("Rust lang", "The Rust Programming Language"), 2);
    assert_eq!(title_hits("  rust   rust ", "rust"), 2);
    assert_eq!(title_hits("", "anything"), 0);
    assert_eq!(title_hits("go", "Rust"), 0);
}

#[test]
fn ddg_hits_have_title_and_url() {
    let html = [
        "<a class=\"result__a\" href=\"https://a.com/\">A</a>",
        "<a class=\"result__a\" href=\"\">empty url</a>",
        "<a class=\"result__a\" href=\"https://c.com/\"></a>",
    ]
    .join("");
    let hits = parse_ddg_results(&html);
    assert!(hits.iter().all(|h| !h.title.is_empty() && !h.url.is_empty()));
    assert_eq!(hits.len(), 1);
    assert_eq!(hits[0].url, "https://a.com/");
}

#[test]
fn ddg_href_distance_counts_bytes() {
    let near = format!("<a class=\"result__a\" data-x=\"{}\" href=\"https://a.com/\">A</a>", "e".repeat(30));
    assert_eq!(parse_ddg_results(&near).len(), 1);
    // Thirty two-byte chars: 41 chars but 71 bytes before the href.
    let far = format!("<a class=\"result__a\" data-x=\"{}\" href=\"https://a.com/\">A</a>", "\u{e9}".repeat(30));
    assert_eq!(parse_ddg_results(&far).len(), 0);
}
