//! Web search: the request URLs for the three providers, the replies built
//! from their pages, and the integer parts of the metasearch ranking
//! (deduplication by normalized URL, provider priority, title hits).

use vstd::prelude::*;
use vstd::string::StringSliceAdditionalSpecFns;
use crate::html::{
    bing_from, ddg_from, hits_json, hits_to_json, hits_view, parse_bing_results, parse_ddg_results, strip_html,
    strip_html_tags, SearchHit,
};
use crate::text::{
    chars_of, contains, contains_exec, dec_signed, find_char, find_char_exec, is_ws, lowercase_of,
    push_dec_signed, push_str, same_chars, same_text, starts_with, string_from, string_of, to_lowercase, trim,
    trimmed_string,
};
use crate::urlops::{or_empty, trim_end_char, trim_end_char_len};
use crate::weburl::{url_host_str_of, url_parse, url_parse_result, url_path_of, url_query_of};

verus! {

// ---------------------------------------------------------------------------
// Request URLs
// ---------------------------------------------------------------------------

/// An unreserved byte, which percent-encoding keeps: an ASCII letter or
/// digit, `-`, `.`, `_` or `~`.
pub open spec fn is_unreserved(b: u8) -> bool {
    (48 <= b <= 57) || (65 <= b <= 90) || (97 <= b <= 122) || b == 45 || b == 46 || b == 95 || b == 126
}

/// An uppercase hex digit of `d` (`0 <= d < 16`).
pub open spec fn hex_upper(d: u8) -> char {
    if d < 10 {
        ((48 + d) as u32) as char
    } else {
        ((55 + d) as u32) as char
    }
}

/// How percent-encoding writes one byte.
pub open spec fn encode_byte(b: u8) -> Seq<char> {
    if is_unreserved(b) {
        seq![(b as u32) as char]
    } else {
        seq!['%', hex_upper(b / 16), hex_upper(b % 16)]
    }
}

/// The percent-encoding of `bytes`.
pub open spec fn percent_encoded(bytes: Seq<u8>) -> Seq<char>
    decreases bytes.len(),
{
    if bytes.len() == 0 {
        Seq::empty()
    } else {
        percent_encoded(bytes.drop_last()) + encode_byte(bytes.last())
    }
}

/// The value of a hex digit.
pub open spec fn hex_value(c: char) -> int {
    if '0' <= c <= '9' {
        c as int - 48
    } else if 'A' <= c <= 'F' {
        c as int - 55
    } else {
        -1
    }
}

/// Law: percent-encoding a byte can be undone. An unreserved byte is kept
/// as the one char with its code; any other byte becomes `%` followed by
/// two uppercase hex digits whose value is the byte.
pub proof fn law_encode_byte_decodes(b: u8)
    ensures
        is_unreserved(b) ==> encode_byte(b).len() == 1 && encode_byte(b)[0] as int == b as int,
        !is_unreserved(b) ==> encode_byte(b).len() == 3 && encode_byte(b)[0] == '%'
            && 0 <= hex_value(encode_byte(b)[1]) < 16 && 0 <= hex_value(encode_byte(b)[2]) < 16
            && hex_value(encode_byte(b)[1]) * 16 + hex_value(encode_byte(b)[2]) == b as int,
{
    if !is_unreserved(b) {
        let hi = b / 16;
        let lo = b % 16;
        assert(hi < 16 && lo < 16);
        assert(hi * 16 + lo == b);
    }
}

/// `urlencoding::encode`: every UTF-8 byte of `s` but the unreserved ones
/// becomes `%` and two uppercase hex digits; the unreserved ones stay.
#[verifier::external_body]
fn url_encode(s: &str) -> (r: String)
    ensures
        r@ == percent_encoded(s.spec_bytes()),
{
    urlencoding::encode(s).into_owned()
}

/// The DuckDuckGo HTML search URL for `query`.
pub fn ddg_search_url(query: &str) -> (r: String)
    ensures
        r@ == "https://html.duckduckgo.com/html/?q="@ + percent_encoded(query.spec_bytes()),
{
    let mut u = string_from("https://html.duckduckgo.com/html/?q=");
    let e = url_encode(query);
    push_str(&mut u, e.as_str());
    u
}

/// The Bing search URL for `query` (twenty results).
pub fn bing_search_url(query: &str) -> (r: String)
    ensures
        r@ == "https://www.bing.com/search?q="@ + percent_encoded(query.spec_bytes()) + "&count=20"@,
{
    let mut u = string_from("https://www.bing.com/search?q=");
    let e = url_encode(query);
    push_str(&mut u, e.as_str());
    push_str(&mut u, "&count=20");
    u
}

/// The Wikipedia search API URL for `query` (five results with snippets).
pub fn wikipedia_search_url(query: &str) -> (r: String)
    ensures
        r@ == "https://en.wikipedia.org/w/api.php?action=query&list=search&srsearch="@ + percent_encoded(
            query.spec_bytes(),
        ) + "&format=json&srlimit=5&srprop=snippet"@,
{
    let mut u = string_from("https://en.wikipedia.org/w/api.php?action=query&list=search&srsearch=");
    let e = url_encode(query);
    push_str(&mut u, e.as_str());
    push_str(&mut u, "&format=json&srlimit=5&srprop=snippet");
    u
}

// ---------------------------------------------------------------------------
// Replies
// ---------------------------------------------------------------------------

/// The reply of the DuckDuckGo search: the hits of its page as JSON.
pub fn web_search_reply(html: &str) -> (r: String)
    ensures
        r@ == hits_json(ddg_from(html@, 0)),
{
    let hits = parse_ddg_results(html);
    hits_to_json(&hits)
}

/// The reply of the Bing search: the hits of its page as JSON.
pub fn bing_search_reply(html: &str) -> (r: String)
    ensures
        r@ == hits_json(bing_from(html@, 0)),
{
    let hits = parse_bing_results(html);
    hits_to_json(&hits)
}

/// One item of a Wikipedia search answer: its `title`, `snippet` and
/// `pageid` (empty and zero where missing).
pub struct WikiItem {
    pub title: String,
    pub snippet: String,
    pub pageid: i64,
}

/// The hit for a Wikipedia item: the page's `curid` URL and the snippet's
/// text without markup, trimmed.
pub open spec fn wiki_hit(title: Seq<char>, snippet: Seq<char>, pageid: i64) -> (Seq<char>, Seq<char>, Seq<char>) {
    (title, "https://en.wikipedia.org/?curid="@ + dec_signed(pageid as int), trim(strip_html(snippet)))
}

/// The hits for Wikipedia items, skipping those without a title.
pub open spec fn wiki_hits(items: Seq<WikiItem>) -> Seq<(Seq<char>, Seq<char>, Seq<char>)>
    decreases items.len(),
{
    if items.len() == 0 {
        Seq::empty()
    } else {
        let rest = wiki_hits(items.drop_last());
        let it = items.last();
        if it.title@.len() == 0 {
            rest
        } else {
            rest.push(wiki_hit(it.title@, it.snippet@, it.pageid))
        }
    }
}

/// Law: every Wikipedia hit comes from an item with a title, keeps that
/// title, and links to the page's `curid` URL; items without a title give
/// no hit, and the hits keep the items' order.
pub proof fn law_wiki_hits(items: Seq<WikiItem>)
    ensures
        wiki_hits(items).len() <= items.len(),
        forall|i: int| 0 <= i < wiki_hits(items).len() ==> (#[trigger] wiki_hits(items)[i]).0.len() > 0
            && starts_with(wiki_hits(items)[i].1, "https://en.wikipedia.org/?curid="@),
        (forall|i: int| 0 <= i < items.len() ==> (#[trigger] items[i]).title@.len() > 0) ==> wiki_hits(items).len()
            == items.len(),
    decreases items.len(),
{
    if items.len() > 0 {
        let rest = items.drop_last();
        law_wiki_hits(rest);
        assert forall|i: int| 0 <= i < rest.len() implies rest[i] == items[i] by {}
        let it = items.last();
        let pre = "https://en.wikipedia.org/?curid="@;
        let url = pre + dec_signed(it.pageid as int);
        assert(url.subrange(0, pre.len() as int) =~= pre);
        if (forall|i: int| 0 <= i < items.len() ==> (#[trigger] items[i]).title@.len() > 0) {
            assert(items[items.len() - 1].title@.len() > 0);
            assert forall|i: int| 0 <= i < rest.len() implies (#[trigger] rest[i]).title@.len() > 0 by {
                assert(items[i].title@.len() > 0);
            }
        }
    }
}

/// The hits of a Wikipedia search answer.
pub fn wikipedia_hits(items: &Vec<WikiItem>) -> (r: Vec<SearchHit>)
    ensures
        hits_view(r@) == wiki_hits(items@),
{
    let mut out: Vec<SearchHit> = Vec::new();
    let mut i: usize = 0;
    while i < items.len()
        invariant
            i <= items.len(),
            hits_view(out@) == wiki_hits(items@.subrange(0, i as int)),
        decreases items.len() - i,
    {
        proof {
            let p = items@.subrange(0, i + 1);
            assert(p.drop_last() =~= items@.subrange(0, i as int));
            assert(p.last() == items@[i as int]);
        }
        let it = &items[i];
        if !it.title.as_str().is_empty() {
            let mut url = string_from("https://en.wikipedia.org/?curid=");
            push_dec_signed(&mut url, it.pageid);
            let stripped = strip_html_tags(it.snippet.as_str());
            let cs = chars_of(stripped.as_str());
            let snippet = trimmed_string(&cs, 0, cs.len());
            assert(cs@.subrange(0, cs@.len() as int) =~= cs@);
            let ghost before = out@;
            out.push(SearchHit { title: it.title.clone(), url, snippet });
            assert(hits_view(out@) =~= hits_view(before).push(out@.last()@));
        }
        i = i + 1;
    }
    assert(items@.subrange(0, items@.len() as int) =~= items@);
    out
}

/// The reply of the Wikipedia search.
pub fn wikipedia_reply(items: &Vec<WikiItem>) -> (r: String)
    ensures
        r@ == hits_json(wiki_hits(items@)),
{
    let hits = wikipedia_hits(items);
    hits_to_json(&hits)
}

// ---------------------------------------------------------------------------
// Metasearch
// ---------------------------------------------------------------------------

/// A hit gathered by the metasearch, with the provider it came from.
pub struct MetaHit {
    pub title: String,
    pub url: String,
    pub snippet: String,
    pub source: String,
}

impl View for MetaHit {
    type V = (Seq<char>, Seq<char>, Seq<char>, Seq<char>);

    open spec fn view(&self) -> (Seq<char>, Seq<char>, Seq<char>, Seq<char>) {
        (self.title@, self.url@, self.snippet@, self.source@)
    }
}

/// The views of a list of metasearch hits.
pub open spec fn meta_view(v: Seq<MetaHit>) -> Seq<(Seq<char>, Seq<char>, Seq<char>, Seq<char>)> {
    v.map_values(|h: MetaHit| h@)
}

/// `s` up to its first `c` (all of it where there is none).
pub open spec fn before_char(s: Seq<char>, c: char) -> Seq<char> {
    match find_char(s, c, 0) {
        Some(i) => s.subrange(0, i),
        None => s,
    }
}

/// The key two hits are deduplicated by: the URL lowercased, without its
/// fragment and trailing slashes; where that parses, its host, path and
/// query run together.
pub open spec fn normalized_url(url: Seq<char>) -> Seq<char> {
    let trimmed = trim_end_char(before_char(lowercase_of(url), '#'), '/');
    match url_parse_result(trimmed) {
        Some(h) => or_empty(url_host_str_of(h)) + url_path_of(h) + or_empty(url_query_of(h)),
        None => trimmed,
    }
}

/// The deduplication key of `url`.
pub fn normalize_url(url: &str) -> (r: String)
    ensures
        r@ == normalized_url(url@),
{
    let lower = to_lowercase(url);
    let lc = chars_of(lower.as_str());
    let end = match find_char_exec(&lc, '#', 0) {
        Some(i) => i,
        None => lc.len(),
    };
    proof {
        crate::text::lemma_find_char_props(lc@, '#', 0);
    }
    let head = string_of(&lc, 0, end);
    let hc = chars_of(head.as_str());
    let keep = trim_end_char_len(&hc, '/');
    let trimmed = string_of(&hc, 0, keep);
    assert(head@ == before_char(lower@, '#'));
    match url_parse(trimmed.as_str()) {
        Ok(u) => {
            let mut out = match u.host_str() {
                Some(h) => h,
                None => String::new(),
            };
            let p = u.path();
            push_str(&mut out, p.as_str());
            match u.query() {
                Some(q) => push_str(&mut out, q.as_str()),
                None => {},
            }
            out
        },
        Err(_) => trimmed,
    }
}

/// Whether position `i` of `keys` is kept: its key is non-empty and no
/// earlier position has the same key.
pub open spec fn first_of_key(keys: Seq<Seq<char>>, i: int) -> bool {
    keys[i].len() > 0 && forall|j: int| 0 <= j < i ==> keys[j] != keys[i]
}

/// The hits kept by deduplication, in order: each the first of its key.
pub open spec fn dedup_kept(hits: Seq<(Seq<char>, Seq<char>, Seq<char>, Seq<char>)>) -> Seq<(Seq<char>, Seq<char>, Seq<char>, Seq<char>)>
    decreases hits.len(),
{
    if hits.len() == 0 {
        Seq::empty()
    } else {
        let rest = dedup_kept(hits.drop_last());
        let keys = hits.map_values(|h: (Seq<char>, Seq<char>, Seq<char>, Seq<char>)| normalized_url(h.1));
        if first_of_key(keys, hits.len() - 1) {
            rest.push(hits.last())
        } else {
            rest
        }
    }
}

/// Whether `key` is one of `seen`.
fn seen_key(seen: &Vec<Vec<char>>, key: &Vec<char>) -> (r: bool)
    ensures
        r == seen@.map_values(|v: Vec<char>| v@).contains(key@),
{
    let ghost sv = seen@.map_values(|v: Vec<char>| v@);
    let mut i: usize = 0;
    while i < seen.len()
        invariant
            i <= seen.len(),
            sv == seen@.map_values(|v: Vec<char>| v@),
            forall|k: int| 0 <= k < i ==> sv[k] != key@,
        decreases seen.len() - i,
    {
        if same_chars(&seen[i], key) {
            assert(sv[i as int] == key@);
            return true;
        }
        i = i + 1;
    }
    false
}

/// Keeps, in order, the first hit for each non-empty normalized URL.
pub fn dedup_hits(hits: &Vec<MetaHit>) -> (r: Vec<MetaHit>)
    ensures
        meta_view(r@) == dedup_kept(meta_view(hits@)),
{
    let ghost all = meta_view(hits@);
    let ghost keys = all.map_values(|h: (Seq<char>, Seq<char>, Seq<char>, Seq<char>)| normalized_url(h.1));
    let mut seen: Vec<Vec<char>> = Vec::new();
    let mut out: Vec<MetaHit> = Vec::new();
    let mut i: usize = 0;
    while i < hits.len()
        invariant
            i <= hits.len(),
            all == meta_view(hits@),
            keys == all.map_values(|h: (Seq<char>, Seq<char>, Seq<char>, Seq<char>)| normalized_url(h.1)),
            meta_view(out@) == dedup_kept(all.subrange(0, i as int)),
            forall|j: int| 0 <= j < i && (#[trigger] keys[j]).len() > 0 ==> seen@.map_values(|v: Vec<char>| v@).contains(keys[j]),
            forall|k: int| #![trigger seen@[k]] 0 <= k < seen@.len() ==> exists|j: int| 0 <= j < i && #[trigger] keys[j] == seen@[k]@,
        decreases hits.len() - i,
    {
        let key = normalize_url(hits[i].url.as_str());
        let kc = chars_of(key.as_str());
        assert(kc@ == keys[i as int]);
        let ghost sub = all.subrange(0, i + 1);
        let ghost subkeys = sub.map_values(|h: (Seq<char>, Seq<char>, Seq<char>, Seq<char>)| normalized_url(h.1));
        proof {
            assert(sub.drop_last() =~= all.subrange(0, i as int));
            assert(sub.last() == all[i as int]);
            assert forall|j: int| 0 <= j <= i implies subkeys[j] == keys[j] by {}
        }
        let known = seen_key(&seen, &kc);
        let keep = kc.len() > 0 && !known;
        proof {
            let sv = seen@.map_values(|v: Vec<char>| v@);
            if keep {
                assert forall|j: int| 0 <= j < i implies subkeys[j] != subkeys[i as int] by {
                    if keys[j] == keys[i as int] {
                        assert(sv.contains(keys[j]));
                    }
                }
                assert(first_of_key(subkeys, i as int));
            } else if kc.len() > 0 {
                let k = choose|k: int| 0 <= k < sv.len() && sv[k] == kc@;
                assert(sv[k] == seen@[k]@);
                let j = choose|j: int| 0 <= j < i && #[trigger] keys[j] == seen@[k]@;
                assert(subkeys[j] == subkeys[i as int]);
                assert(!first_of_key(subkeys, i as int));
            } else {
                assert(!first_of_key(subkeys, i as int));
            }
        }
        if keep {
            let h = &hits[i];
            let ghost before = out@;
            out.push(MetaHit { title: h.title.clone(), url: h.url.clone(), snippet: h.snippet.clone(), source: h.source.clone() });
            assert(meta_view(out@) =~= meta_view(before).push(all[i as int]));
            let ghost seen_before = seen@;
            seen.push(kc);
            proof {
                assert forall|j: int| 0 <= j < i + 1 && (#[trigger] keys[j]).len() > 0 implies seen@.map_values(|v: Vec<char>| v@).contains(keys[j]) by {
                    if j < i {
                        let sb = seen_before.map_values(|v: Vec<char>| v@);
                        assert(sb.contains(keys[j]));
                        let k = choose|k: int| 0 <= k < sb.len() && sb[k] == keys[j];
                        assert(seen@.map_values(|v: Vec<char>| v@)[k] == keys[j]);
                    } else {
                        assert(seen@.map_values(|v: Vec<char>| v@)[i as int - i as int + seen_before.len()] == keys[j]);
                    }
                }
                assert forall|k: int| #![trigger seen@[k]] 0 <= k < seen@.len() implies exists|j: int| 0 <= j < i + 1 && #[trigger] keys[j] == seen@[k]@ by {
                    if k < seen_before.len() {
                        assert(seen@[k] == seen_before[k]);
                        let j = choose|j: int| 0 <= j < i && #[trigger] keys[j] == seen_before[k]@;
                        assert(keys[j] == seen@[k]@);
                    } else {
                        assert(keys[i as int] == seen@[k]@);
                    }
                }
            }
        } else {
            proof {
                assert forall|j: int| 0 <= j < i + 1 && (#[trigger] keys[j]).len() > 0 implies seen@.map_values(|v: Vec<char>| v@).contains(keys[j]) by {
                    if j == i {
                        assert(known);
                    }
                }
            }
        }
        i = i + 1;
    }
    assert(all.subrange(0, all.len() as int) =~= all);
    out
}

/// The base score of a provider: Wikipedia 15, DuckDuckGo 10, Bing 8,
/// any other 5.
pub open spec fn source_priority_of(source: Seq<char>) -> u32 {
    if source == "wikipedia"@ {
        15
    } else if source == "duckduckgo"@ {
        10
    } else if source == "bing"@ {
        8
    } else {
        5
    }
}

/// Law: providers are ranked Wikipedia (15) above DuckDuckGo (10) above
/// Bing (8) above any other (5).
pub proof fn law_source_ranking(other: Seq<char>)
    ensures
        source_priority_of("wikipedia"@) == 15,
        source_priority_of("duckduckgo"@) == 10,
        source_priority_of("bing"@) == 8,
        other != "wikipedia"@ && other != "duckduckgo"@ && other != "bing"@ ==> source_priority_of(other) == 5,
        source_priority_of("wikipedia"@) > source_priority_of("duckduckgo"@) > source_priority_of("bing"@)
            > source_priority_of(other) || other == "wikipedia"@ || other == "duckduckgo"@ || other == "bing"@,
{
    reveal_strlit("wikipedia");
    reveal_strlit("duckduckgo");
    reveal_strlit("bing");
    assert("wikipedia"@.len() == 9 && "duckduckgo"@.len() == 10 && "bing"@.len() == 4);
}

/// The base score of the provider `source`.
pub fn source_priority(source: &str) -> (r: u32)
    ensures
        r == source_priority_of(source@),
{
    if same_text(source, "wikipedia") {
        15
    } else if same_text(source, "duckduckgo") {
        10
    } else if same_text(source, "bing") {
        8
    } else {
        5
    }
}

/// The snippet's weight in the score: its length in UTF-8 bytes, at most
/// 300.
pub fn snippet_weight(snippet: &str) -> (r: usize)
    ensures
        r == if snippet.len() < 300 { snippet.len() } else { 300 },
{
    let n = snippet.len();
    if n < 300 {
        n
    } else {
        300
    }
}

/// The words of `s` as `str::split_whitespace` gives them: the maximal runs
/// of chars that are not white space.
pub open spec fn words(s: Seq<char>) -> Seq<Seq<char>>
    decreases s.len(),
{
    if s.len() == 0 {
        Seq::empty()
    } else {
        let w = words(s.drop_last());
        let c = s.last();
        if is_ws(c) {
            w
        } else if s.len() >= 2 && !is_ws(s[s.len() - 2]) {
            w.drop_last().push(w.last().push(c))
        } else {
            w.push(seq![c])
        }
    }
}

/// The words of `s`.
pub fn split_words(s: &Vec<char>) -> (r: Vec<Vec<char>>)
    ensures
        r@.map_values(|v: Vec<char>| v@) == words(s@),
{
    let mut done: Vec<Vec<char>> = Vec::new();
    let mut cur: Vec<char> = Vec::new();
    let mut i: usize = 0;
    while i < s.len()
        invariant
            i <= s.len(),
            cur@.len() > 0 <==> (i > 0 && !is_ws(s@[i - 1])),
            words(s@.subrange(0, i as int)) == if cur@.len() > 0 {
                done@.map_values(|v: Vec<char>| v@).push(cur@)
            } else {
                done@.map_values(|v: Vec<char>| v@)
            },
        decreases s.len() - i,
    {
        let c = s[i];
        let ghost p = s@.subrange(0, i + 1);
        proof {
            assert(p.drop_last() =~= s@.subrange(0, i as int));
            assert(p.last() == c);
            if i > 0 {
                assert(p[p.len() - 2] == s@[i - 1]);
            }
        }
        let ghost done_before = done@.map_values(|v: Vec<char>| v@);
        let ghost cur_before = cur@;
        if crate::text::is_ws_exec(c) {
            assert(words(p) == words(s@.subrange(0, i as int)));
            if cur.len() > 0 {
                let mut w: Vec<char> = Vec::new();
                std::mem::swap(&mut w, &mut cur);
                done.push(w);
                assert(done@.map_values(|v: Vec<char>| v@) =~= done_before.push(cur_before));
            }
        } else {
            cur.push(c);
            proof {
                if cur_before.len() > 0 {
                    let w = done_before.push(cur_before);
                    assert(w.drop_last() =~= done_before);
                    assert(w.last() == cur_before);
                    assert(words(p) == w.drop_last().push(w.last().push(c)));
                    assert(cur@ == cur_before.push(c));
                } else {
                    assert(words(p) == done_before.push(seq![c]));
                    assert(cur@ =~= seq![c]);
                }
            }
        }
        i = i + 1;
    }
    if cur.len() > 0 {
        let ghost done_before = done@.map_values(|v: Vec<char>| v@);
        let ghost cur_before = cur@;
        done.push(cur);
        assert(done@.map_values(|v: Vec<char>| v@) =~= done_before.push(cur_before));
    }
    assert(s@.subrange(0, s@.len() as int) =~= s@);
    done
}

/// How many of `ws` occur in `title`.
pub open spec fn hits_in(ws: Seq<Seq<char>>, title: Seq<char>) -> nat
    decreases ws.len(),
{
    if ws.len() == 0 {
        0
    } else {
        hits_in(ws.drop_last(), title) + if contains(title, ws.last()) {
            1nat
        } else {
            0nat
        }
    }
}

/// How many words of the lowercased query occur in the lowercased title
/// (a word that recurs in the query counts each time).
pub open spec fn title_hits_of(query: Seq<char>, title: Seq<char>) -> nat {
    hits_in(words(lowercase_of(query)), lowercase_of(title))
}

/// The number of query words found in `title`.
pub fn title_hits(query: &str, title: &str) -> (r: usize)
    ensures
        r == title_hits_of(query@, title@),
{
    let q = to_lowercase(query);
    let t = to_lowercase(title);
    let qc = chars_of(q.as_str());
    let tc = chars_of(t.as_str());
    let ws = split_words(&qc);
    let ghost wv = ws@.map_values(|v: Vec<char>| v@);
    let mut n: usize = 0;
    let mut i: usize = 0;
    while i < ws.len()
        invariant
            i <= ws.len(),
            wv == ws@.map_values(|v: Vec<char>| v@),
            n == hits_in(wv.subrange(0, i as int), tc@),
            n <= i,
        decreases ws.len() - i,
    {
        proof {
            let p = wv.subrange(0, i + 1);
            assert(p.drop_last() =~= wv.subrange(0, i as int));
            assert(p.last() == ws@[i as int]@);
        }
        if contains_exec(&tc, &ws[i]) {
            n = n + 1;
        }
        i = i + 1;
    }
    assert(wv.subrange(0, wv.len() as int) =~= wv);
    n
}

/// The deduplication key of a metasearch hit.
pub open spec fn hit_key(h: (Seq<char>, Seq<char>, Seq<char>, Seq<char>)) -> Seq<char> {
    normalized_url(h.1)
}

proof fn lemma_dedup_from_input(hits: Seq<(Seq<char>, Seq<char>, Seq<char>, Seq<char>)>)
    ensures
        forall|a: int| 0 <= a < dedup_kept(hits).len() ==> exists|j: int| 0 <= j < hits.len() && #[trigger] dedup_kept(hits)[a] == hits[j],
        forall|a: int| 0 <= a < dedup_kept(hits).len() ==> hit_key(#[trigger] dedup_kept(hits)[a]).len() > 0,
    decreases hits.len(),
{
    if hits.len() > 0 {
        let t = hits.drop_last();
        lemma_dedup_from_input(t);
        let r = dedup_kept(hits);
        let rt = dedup_kept(t);
        let keys = hits.map_values(|h: (Seq<char>, Seq<char>, Seq<char>, Seq<char>)| normalized_url(h.1));
        assert forall|a: int| 0 <= a < r.len() implies exists|j: int| 0 <= j < hits.len() && #[trigger] r[a] == hits[j] by {
            if a < rt.len() {
                assert(r[a] == rt[a]);
                let j = choose|j: int| 0 <= j < t.len() && #[trigger] rt[a] == t[j];
                assert(hits[j] == t[j]);
            } else {
                assert(r[a] == hits[hits.len() - 1]);
            }
        }
        assert forall|a: int| 0 <= a < r.len() implies hit_key(#[trigger] r[a]).len() > 0 by {
            if a < rt.len() {
                assert(r[a] == rt[a]);
            } else {
                assert(keys[hits.len() - 1] == hit_key(hits.last()));
            }
        }
    }
}

/// Deduplication leaves at most one hit per key, and none without a key.
pub proof fn law_dedup_keys_distinct(hits: Seq<(Seq<char>, Seq<char>, Seq<char>, Seq<char>)>)
    ensures
        forall|a: int, b: int| 0 <= a < b < dedup_kept(hits).len() ==> hit_key(#[trigger] dedup_kept(hits)[a])
            != hit_key(#[trigger] dedup_kept(hits)[b]),
        forall|a: int| 0 <= a < dedup_kept(hits).len() ==> hit_key(#[trigger] dedup_kept(hits)[a]).len() > 0,
    decreases hits.len(),
{
    lemma_dedup_from_input(hits);
    if hits.len() > 0 {
        let t = hits.drop_last();
        law_dedup_keys_distinct(t);
        lemma_dedup_from_input(t);
        let r = dedup_kept(hits);
        let rt = dedup_kept(t);
        let keys = hits.map_values(|h: (Seq<char>, Seq<char>, Seq<char>, Seq<char>)| normalized_url(h.1));
        if first_of_key(keys, hits.len() - 1) {
            assert forall|a: int, b: int| 0 <= a < b < r.len() implies hit_key(#[trigger] r[a]) != hit_key(#[trigger] r[b]) by {
                if b < rt.len() {
                    assert(r[a] == rt[a]);
                    assert(r[b] == rt[b]);
                } else {
                    assert(r[a] == rt[a]);
                    assert(r[b] == hits.last());
                    let j = choose|j: int| 0 <= j < t.len() && #[trigger] rt[a] == t[j];
                    assert(keys[j] == hit_key(t[j]));
                    assert(keys[hits.len() - 1] == hit_key(hits.last()));
                }
            }
        } else {
            assert(r == rt);
        }
    }
}

/// Every hit deduplication keeps is one of the input hits.
pub proof fn law_dedup_keeps_input(hits: Seq<(Seq<char>, Seq<char>, Seq<char>, Seq<char>)>)
    ensures
        forall|a: int| 0 <= a < dedup_kept(hits).len() ==> #[trigger] hits.contains(dedup_kept(hits)[a]),
{
    lemma_dedup_from_input(hits);
    assert forall|a: int| 0 <= a < dedup_kept(hits).len() implies #[trigger] hits.contains(dedup_kept(hits)[a]) by {
        let j = choose|j: int| 0 <= j < hits.len() && #[trigger] dedup_kept(hits)[a] == hits[j];
    }
}

} // verus!
