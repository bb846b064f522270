//! Text extraction from search-engine result pages.
//!
//! The pages are scanned as plain text for a few fixed markers; each spec
//! function below states the scan that the original performs, position by
//! position, over the whole page (`h`) with absolute char positions.

use vstd::prelude::*;
use crate::text::{
    chars_of, find_in, find_in_exec, find_from, replace_all, replace_all_exec, starts_with,
    starts_with_exec, string_of, trim, trimmed_string, push_chars, utf8_len, utf8_len_exceeds,
};

verus! {

// ---------------------------------------------------------------------------
// Tag stripping
// ---------------------------------------------------------------------------

/// The chars of `s` outside `<...>` tags, given whether the scan starts
/// inside a tag: `<` opens a tag, `>` closes one, both are dropped.
pub open spec fn drop_tags(s: Seq<char>, in_tag: bool) -> Seq<char>
    decreases s.len(),
{
    if s.len() == 0 {
        Seq::empty()
    } else if s[0] == '<' {
        drop_tags(s.drop_first(), true)
    } else if s[0] == '>' {
        drop_tags(s.drop_first(), false)
    } else if !in_tag {
        seq![s[0]] + drop_tags(s.drop_first(), in_tag)
    } else {
        drop_tags(s.drop_first(), in_tag)
    }
}

/// Law: what is outside tags is kept and tags are gone. Dropping tags from
/// text that holds no `<` or `>` keeps it whole; what is left never holds
/// a `<` or `>`.
pub proof fn law_drop_tags(s: Seq<char>, in_tag: bool)
    ensures
        (forall|i: int| 0 <= i < s.len() ==> s[i] != '<' && s[i] != '>') && !in_tag ==> drop_tags(s, in_tag) == s,
        forall|i: int| 0 <= i < drop_tags(s, in_tag).len() ==> #[trigger] drop_tags(s, in_tag)[i] != '<'
            && drop_tags(s, in_tag)[i] != '>',
    decreases s.len(),
{
    if s.len() > 0 {
        let next_in = if s[0] == '<' { true } else if s[0] == '>' { false } else { in_tag };
        law_drop_tags(s.drop_first(), next_in);
        if (forall|i: int| 0 <= i < s.len() ==> s[i] != '<' && s[i] != '>') && !in_tag {
            assert forall|i: int| 0 <= i < s.drop_first().len() implies s.drop_first()[i] != '<' && s.drop_first()[i] != '>' by {
                assert(s.drop_first()[i] == s[i + 1]);
            }
            assert(seq![s[0]] + s.drop_first() =~= s);
        }
        let r = drop_tags(s.drop_first(), next_in);
        if s[0] != '<' && s[0] != '>' && !in_tag {
            assert forall|i: int| 0 <= i < drop_tags(s, in_tag).len() implies #[trigger] drop_tags(s, in_tag)[i] != '<'
                && drop_tags(s, in_tag)[i] != '>' by {
                if i > 0 {
                    assert(drop_tags(s, in_tag)[i] == r[i - 1]);
                }
            }
        }
    }
}

/// Law: plain text (no `<`, `>` or `&`) comes out of tag stripping as it
/// went in.
pub proof fn law_strip_html_plain(s: Seq<char>)
    requires
        forall|i: int| 0 <= i < s.len() ==> s[i] != '<' && s[i] != '>' && s[i] != '&',
    ensures
        strip_html(s) == s,
{
    law_drop_tags(s, false);
    reveal_strlit("&amp;");
    reveal_strlit("&lt;");
    reveal_strlit("&gt;");
    reveal_strlit("&quot;");
    reveal_strlit("&#39;");
    reveal_strlit("&#x27;");
    reveal_strlit("&nbsp;");
    crate::text::law_replace_all_absent(s, "&amp;"@, "&"@);
    crate::text::law_replace_all_absent(s, "&lt;"@, "<"@);
    crate::text::law_replace_all_absent(s, "&gt;"@, ">"@);
    crate::text::law_replace_all_absent(s, "&quot;"@, "\""@);
    crate::text::law_replace_all_absent(s, "&#39;"@, "'"@);
    crate::text::law_replace_all_absent(s, "&#x27;"@, "'"@);
    crate::text::law_replace_all_absent(s, "&nbsp;"@, " "@);
}

/// `strip_html_tags`: the text outside tags with the entities `&amp;`,
/// `&lt;`, `&gt;`, `&quot;`, `&#39;`, `&#x27;`, `&nbsp;` replaced, one after
/// the other in that order.
pub open spec fn strip_html(s: Seq<char>) -> Seq<char> {
    let t = drop_tags(s, false);
    let t1 = replace_all(t, "&amp;"@, "&"@);
    let t2 = replace_all(t1, "&lt;"@, "<"@);
    let t3 = replace_all(t2, "&gt;"@, ">"@);
    let t4 = replace_all(t3, "&quot;"@, "\""@);
    let t5 = replace_all(t4, "&#39;"@, "'"@);
    let t6 = replace_all(t5, "&#x27;"@, "'"@);
    replace_all(t6, "&nbsp;"@, " "@)
}

/// `trim(strip_html(h[from..to]))`: the cleaned text of a page fragment.
pub open spec fn clean_text(h: Seq<char>, from: int, to: int) -> Seq<char> {
    trim(strip_html(h.subrange(from, to)))
}

fn replace_lit(s: &Vec<char>, pat: &str, rep: &str) -> (r: Vec<char>)
    requires
        pat@.len() > 0,
    ensures
        r@ == replace_all(s@, pat@, rep@),
{
    let p = chars_of(pat);
    let q = chars_of(rep);
    replace_all_exec(s, &p, &q)
}

/// The chars of `s[from..to]` outside tags.
fn drop_tags_exec(s: &Vec<char>, from: usize, to: usize) -> (r: Vec<char>)
    requires
        from <= to <= s.len(),
    ensures
        r@ == drop_tags(s@.subrange(from as int, to as int), false),
{
    let mut out: Vec<char> = Vec::new();
    let mut in_tag = false;
    let mut i = from;
    while i < to
        invariant
            from <= i <= to <= s.len(),
            out@ + drop_tags(s@.subrange(i as int, to as int), in_tag)
                == drop_tags(s@.subrange(from as int, to as int), false),
        decreases to - i,
    {
        let ghost rest = s@.subrange(i as int, to as int);
        let ghost tail = s@.subrange(i + 1, to as int);
        assert(rest.drop_first() == tail);
        assert(rest[0] == s@[i as int]);
        let c = s[i];
        if c == '<' {
            in_tag = true;
        } else if c == '>' {
            in_tag = false;
        } else if !in_tag {
            assert(out@.push(c) + drop_tags(tail, in_tag) == out@ + (seq![c] + drop_tags(tail, in_tag)));
            out.push(c);
        }
        i = i + 1;
    }
    assert(out@ + Seq::<char>::empty() == out@);
    out
}

/// The text of `s[from..to]` outside tags, with the common entities replaced.
fn strip_html_exec(s: &Vec<char>, from: usize, to: usize) -> (r: Vec<char>)
    requires
        from <= to <= s.len(),
    ensures
        r@ == strip_html(s@.subrange(from as int, to as int)),
{
    proof {
        reveal_strlit("&amp;");
        reveal_strlit("&lt;");
        reveal_strlit("&gt;");
        reveal_strlit("&quot;");
        reveal_strlit("&#39;");
        reveal_strlit("&#x27;");
        reveal_strlit("&nbsp;");
    }
    let t = drop_tags_exec(s, from, to);
    let t = replace_lit(&t, "&amp;", "&");
    let t = replace_lit(&t, "&lt;", "<");
    let t = replace_lit(&t, "&gt;", ">");
    let t = replace_lit(&t, "&quot;", "\"");
    let t = replace_lit(&t, "&#39;", "'");
    let t = replace_lit(&t, "&#x27;", "'");
    replace_lit(&t, "&nbsp;", " ")
}

/// Strips HTML tags from `s` and replaces the common entities.
pub fn strip_html_tags(s: &str) -> (r: String)
    ensures
        r@ == strip_html(s@),
{
    let v = chars_of(s);
    let t = strip_html_exec(&v, 0, v.len());
    assert(v@.subrange(0, v@.len() as int) == v@);
    let mut out = String::new();
    push_chars(&mut out, &t);
    out
}

/// The cleaned text of `s[from..to]`.
fn clean_text_exec(s: &Vec<char>, from: usize, to: usize) -> (r: String)
    requires
        from <= to <= s.len(),
    ensures
        r@ == clean_text(s@, from as int, to as int),
{
    let t = strip_html_exec(s, from, to);
    let r = trimmed_string(&t, 0, t.len());
    assert(t@.subrange(0, t@.len() as int) == t@);
    r
}

// ---------------------------------------------------------------------------
// Search hits
// ---------------------------------------------------------------------------

/// One search result: title, url and snippet.
pub struct SearchHit {
    pub title: String,
    pub url: String,
    pub snippet: String,
}

impl View for SearchHit {
    type V = (Seq<char>, Seq<char>, Seq<char>);

    open spec fn view(&self) -> (Seq<char>, Seq<char>, Seq<char>) {
        (self.title@, self.url@, self.snippet@)
    }
}

/// The views of a list of hits.
pub open spec fn hits_view(v: Seq<SearchHit>) -> Seq<(Seq<char>, Seq<char>, Seq<char>)> {
    v.map_values(|h: SearchHit| h@)
}

// ---------------------------------------------------------------------------
// DuckDuckGo
// ---------------------------------------------------------------------------

/// The decoded form of a percent-encoded string, or `None` when the decoded
/// bytes are not UTF-8 (`urlencoding::decode`).
pub uninterp spec fn percent_decoded(input: Seq<char>) -> Option<Seq<char>>;

/// `urlencoding::decode`: decodes `%XX` escapes and reads the bytes as UTF-8;
/// `None` where they are not UTF-8.
#[verifier::external_body]
fn percent_decode(s: &str) -> (r: Option<String>)
    ensures
        match r {
            Some(d) => percent_decoded(s@) == Some(d@),
            None => percent_decoded(s@) is None,
        },
{
    match urlencoding::decode(s) {
        Ok(d) => Some(d.into_owned()),
        Err(_) => None,
    }
}

/// The target of a DuckDuckGo redirect link: the percent-decoded `uddg`
/// parameter (up to the next `&`) where there is one; that parameter as it
/// stands where it does not decode; otherwise the link itself.
pub open spec fn ddg_target(href: Seq<char>) -> Seq<char> {
    match find_from(href, "uddg="@, 0) {
        Some(pos) => {
            let after = pos + 5;
            let end = match find_from(href, "&"@, after) {
                Some(e) => e,
                None => href.len() as int,
            };
            let encoded = href.subrange(after, end);
            match percent_decoded(encoded) {
                Some(d) => d,
                None => encoded,
            }
        },
        None => href,
    }
}

/// Extracts the actual URL from a DuckDuckGo redirect link.
pub fn extract_ddg_url(href: &str) -> (r: String)
    ensures
        r@ == ddg_target(href@),
{
    let h = chars_of(href);
    let key = chars_of("uddg=");
    let amp = chars_of("&");
    proof {
        reveal_strlit("uddg=");
    }
    match find_in_exec(&h, &key, 0, h.len()) {
        Some(pos) => {
            proof {
                crate::text::lemma_find_in_props(h@, key@, 0, h@.len() as int);
            }
            let after = pos + 5;
            let end = match find_in_exec(&h, &amp, after, h.len()) {
                Some(e) => {
                    proof {
                        crate::text::lemma_find_in_props(h@, amp@, after as int, h@.len() as int);
                    }
                    e
                },
                None => h.len(),
            };
            let encoded = string_of(&h, after, end);
            match percent_decode(encoded.as_str()) {
                Some(d) => d,
                None => encoded,
            }
        },
        None => string_of(&h, 0, h.len()),
    }
}

/// The snippet that follows a DuckDuckGo title ending at `title_end`: the
/// cleaned text of the first `result__snippet` element after it, up to its
/// `</a>` or else its `</span>`; empty where there is none.
pub open spec fn ddg_snippet(h: Seq<char>, title_end: int) -> Seq<char> {
    match find_from(h, "class=\"result__snippet\""@, title_end) {
        Some(ss) => match find_from(h, ">"@, ss) {
            Some(gt) => {
                let start = gt + 1;
                match find_from(h, "</a>"@, start) {
                    Some(c) => clean_text(h, start, c),
                    None => match find_from(h, "</span>"@, start) {
                        Some(c2) => clean_text(h, start, c2),
                        None => Seq::empty(),
                    },
                }
            },
            None => Seq::empty(),
        },
        None => Seq::empty(),
    }
}

/// The DuckDuckGo results found in `h` from position `r` on, in page order.
/// Each `result__a` link gives a result when its `href` starts within 50
/// bytes (UTF-8) of the class attribute, the tag closes, the link text ends with
/// `</a>`, and both the cleaned title and the target url are non-empty.
pub open spec fn ddg_from(h: Seq<char>, r: int) -> Seq<(Seq<char>, Seq<char>, Seq<char>)>
    decreases h.len() - r,
{
    if r < 0 || r > h.len() {
        Seq::empty()
    } else {
        match find_from(h, "class=\"result__a\""@, r) {
            None => Seq::empty(),
            Some(a) => {
                let after_class = a + 16;
                if after_class <= r || after_class > h.len() {
                    Seq::empty()
                } else {
                    match find_from(h, "href=\""@, after_class) {
                        None => ddg_from(h, after_class),
                        Some(hp) => if hp >= after_class && utf8_len(h.subrange(after_class, hp)) > 50 {
                            ddg_from(h, after_class)
                        } else {
                            let after_href = hp + 6;
                            if hp < after_class || after_href > h.len() {
                                Seq::empty()
                            } else {
                            match find_from(h, "\""@, after_href) {
                                None => ddg_from(h, after_class),
                                Some(he) => {
                                    let url = ddg_target(h.subrange(after_href, he));
                                    match find_from(h, ">"@, he) {
                                        None => ddg_from(h, after_href),
                                        Some(gt) => {
                                            let inner = gt + 1;
                                            match find_from(h, "</a>"@, inner) {
                                                None => ddg_from(h, after_href),
                                                Some(te) => if te <= r || te > h.len() {
                                                    Seq::empty()
                                                } else {
                                                    let title = clean_text(h, inner, te);
                                                    let snippet = ddg_snippet(h, te);
                                                    let rest = ddg_from(h, te);
                                                    if title.len() > 0 && url.len() > 0 {
                                                        seq![(title, url, snippet)] + rest
                                                    } else {
                                                        rest
                                                    }
                                                },
                                            }
                                        },
                                    }
                                },
                            }
                            }
                        },
                    }
                }
            },
        }
    }
}

/// Every hit has a non-empty title and a non-empty url.
pub open spec fn hits_complete(s: Seq<(Seq<char>, Seq<char>, Seq<char>)>) -> bool {
    forall|i: int| 0 <= i < s.len() ==> (#[trigger] s[i]).0.len() > 0 && s[i].1.len() > 0
}

proof fn lemma_complete_prepend(x: (Seq<char>, Seq<char>, Seq<char>), rest: Seq<(Seq<char>, Seq<char>, Seq<char>)>)
    requires
        x.0.len() > 0,
        x.1.len() > 0,
        hits_complete(rest),
    ensures
        hits_complete(seq![x] + rest),
{
    let t = seq![x] + rest;
    assert forall|i: int| 0 <= i < t.len() implies (#[trigger] t[i]).0.len() > 0 && t[i].1.len() > 0 by {
        if i > 0 {
            assert(t[i] == rest[i - 1]);
        }
    }
}

/// Law: every hit read from a DuckDuckGo result page, from any position
/// on, has a non-empty title and a non-empty url.
pub proof fn law_ddg_hits_complete(h: Seq<char>, r: int)
    ensures
        hits_complete(ddg_from(h, r)),
    decreases h.len() - r,
{
    if r < 0 || r > h.len() {
    } else {
        match find_from(h, "class=\"result__a\""@, r) {
            None => {},
            Some(a) => {
                let after_class = a + 16;
                if after_class <= r || after_class > h.len() {
                } else {
                    match find_from(h, "href=\""@, after_class) {
                        None => law_ddg_hits_complete(h, after_class),
                        Some(hp) => if hp >= after_class && utf8_len(h.subrange(after_class, hp)) > 50 {
                            law_ddg_hits_complete(h, after_class)
                        } else {
                            let after_href = hp + 6;
                            if hp < after_class || after_href > h.len() {
                            } else {
                                match find_from(h, "\""@, after_href) {
                                    None => law_ddg_hits_complete(h, after_class),
                                    Some(he) => {
                                        let url = ddg_target(h.subrange(after_href, he));
                                        match find_from(h, ">"@, he) {
                                            None => law_ddg_hits_complete(h, after_href),
                                            Some(gt) => {
                                                let inner = gt + 1;
                                                match find_from(h, "</a>"@, inner) {
                                                    None => law_ddg_hits_complete(h, after_href),
                                                    Some(te) => if te <= r || te > h.len() {
                                                    } else {
                                                        let title = clean_text(h, inner, te);
                                                        let snippet = ddg_snippet(h, te);
                                                        law_ddg_hits_complete(h, te);
                                                        if title.len() > 0 && url.len() > 0 {
                                                            lemma_complete_prepend((title, url, snippet), ddg_from(h, te));
                                                        }
                                                    },
                                                }
                                            },
                                        }
                                    },
                                }
                            }
                        },
                    }
                }
            },
        }
    }
}

/// Law: a DuckDuckGo result link yields a hit whenever its `href` starts
/// within 50 bytes of the class attribute, its tag closes, its text ends
/// with `</a>`, and both its cleaned title and its target url are
/// non-empty. Where the next `result__a` from `r` on is at `a`, its `href="`
/// at `hp`, the closing quote at `he`, the tag's `>` at `gt` and the `</a>`
/// at `te`, the hits read from `r` on start with that link's title, target
/// url and snippet.
pub proof fn law_ddg_link_gives_hit(h: Seq<char>, r: int, a: int, hp: int, he: int, gt: int, te: int)
    requires
        0 <= r <= h.len(),
        find_from(h, "class=\"result__a\""@, r) == Some(a),
        a + 16 <= h.len(),
        find_from(h, "href=\""@, a + 16) == Some(hp),
        crate::text::utf8_len(h.subrange(a + 16, hp)) <= 50,
        hp + 6 <= h.len(),
        find_from(h, "\""@, hp + 6) == Some(he),
        find_from(h, ">"@, he) == Some(gt),
        find_from(h, "</a>"@, gt + 1) == Some(te),
        clean_text(h, gt + 1, te).len() > 0,
        ddg_target(h.subrange(hp + 6, he)).len() > 0,
    ensures
        ddg_from(h, r).len() >= 1,
        ddg_from(h, r)[0] == (clean_text(h, gt + 1, te), ddg_target(h.subrange(hp + 6, he)), ddg_snippet(h, te)),
{
    reveal_strlit("class=\"result__a\"");
    reveal_strlit("href=\"");
    crate::text::lemma_find_in_props(h, "class=\"result__a\""@, r, h.len() as int);
    crate::text::lemma_find_in_props(h, "href=\""@, a + 16, h.len() as int);
    crate::text::lemma_find_in_props(h, "\""@, hp + 6, h.len() as int);
    crate::text::lemma_find_in_props(h, ">"@, he, h.len() as int);
    crate::text::lemma_find_in_props(h, "</a>"@, gt + 1, h.len() as int);
    let x = (clean_text(h, gt + 1, te), ddg_target(h.subrange(hp + 6, he)), ddg_snippet(h, te));
    let rest = ddg_from(h, te);
    assert(ddg_from(h, r) == seq![x] + rest);
    assert((seq![x] + rest)[0] == x);
}

/// Law: a `result__a` link whose `href` starts more than 50 bytes after the
/// class attribute gives no hit: the reading goes on after the attribute.
pub proof fn law_ddg_far_href_skipped(h: Seq<char>, r: int, a: int, hp: int)
    requires
        0 <= r <= h.len(),
        find_from(h, "class=\"result__a\""@, r) == Some(a),
        a + 16 <= h.len(),
        find_from(h, "href=\""@, a + 16) == Some(hp),
        crate::text::utf8_len(h.subrange(a + 16, hp)) > 50,
    ensures
        ddg_from(h, r) == ddg_from(h, a + 16),
{
    reveal_strlit("class=\"result__a\"");
    crate::text::lemma_find_in_props(h, "class=\"result__a\""@, r, h.len() as int);
    reveal_strlit("href=\"");
    crate::text::lemma_find_in_props(h, "href=\""@, a + 16, h.len() as int);
}

/// The markers of a DuckDuckGo result page.
struct DdgMarkers {
    class_a: Vec<char>,
    href: Vec<char>,
    quote: Vec<char>,
    gt: Vec<char>,
    close_a: Vec<char>,
    snippet: Vec<char>,
    close_span: Vec<char>,
}

impl DdgMarkers {
    spec fn wf(&self) -> bool {
        &&& self.class_a@ == "class=\"result__a\""@
        &&& self.href@ == "href=\""@
        &&& self.quote@ == "\""@
        &&& self.gt@ == ">"@
        &&& self.close_a@ == "</a>"@
        &&& self.snippet@ == "class=\"result__snippet\""@
        &&& self.close_span@ == "</span>"@
    }

    fn new() -> (m: DdgMarkers)
        ensures
            m.wf(),
    {
        DdgMarkers {
            class_a: chars_of("class=\"result__a\""),
            href: chars_of("href=\""),
            quote: chars_of("\""),
            gt: chars_of(">"),
            close_a: chars_of("</a>"),
            snippet: chars_of("class=\"result__snippet\""),
            close_span: chars_of("</span>"),
        }
    }
}

fn find_exec(h: &Vec<char>, n: &Vec<char>, from: usize) -> (r: Option<usize>)
    requires
        from <= h.len(),
    ensures
        match r {
            Some(i) => find_from(h@, n@, from as int) == Some(i as int) && from <= i && i + n@.len()
                <= h@.len(),
            None => find_from(h@, n@, from as int) is None,
        },
{
    let r = find_in_exec(h, n, from, h.len());
    proof {
        crate::text::lemma_find_in_props(h@, n@, from as int, h@.len() as int);
    }
    r
}

fn ddg_snippet_exec(h: &Vec<char>, m: &DdgMarkers, title_end: usize) -> (r: String)
    requires
        m.wf(),
        title_end <= h.len(),
    ensures
        r@ == ddg_snippet(h@, title_end as int),
{
    match find_exec(h, &m.snippet, title_end) {
        Some(ss) => match find_exec(h, &m.gt, ss) {
            Some(gt) => {
                proof {
                    reveal_strlit(">");
                }
                let start = gt + 1;
                match find_exec(h, &m.close_a, start) {
                    Some(c) => clean_text_exec(h, start, c),
                    None => match find_exec(h, &m.close_span, start) {
                        Some(c2) => clean_text_exec(h, start, c2),
                        None => String::new(),
                    },
                }
            },
            None => String::new(),
        },
        None => String::new(),
    }
}

/// Parses a DuckDuckGo HTML result page into search results, in page order.
pub fn parse_ddg_results(html: &str) -> (r: Vec<SearchHit>)
    ensures
        hits_view(r@) == ddg_from(html@, 0),
{
    let h = chars_of(html);
    let m = DdgMarkers::new();
    proof {
        reveal_strlit("class=\"result__a\"");
        reveal_strlit("href=\"");
        reveal_strlit("\"");
        reveal_strlit(">");
        reveal_strlit("</a>");
    }
    let mut out: Vec<SearchHit> = Vec::new();
    let mut r: usize = 0;
    loop
        invariant
            h@ == html@,
            m.wf(),
            r <= h.len(),
            hits_view(out@) + ddg_from(h@, r as int) == ddg_from(h@, 0),
        decreases h.len() - r,
    {
        proof {
            reveal_strlit("class=\"result__a\"");
            reveal_strlit("href=\"");
            reveal_strlit("\"");
            reveal_strlit(">");
            reveal_strlit("</a>");
        }
        let ghost prev = r;
        match find_exec(&h, &m.class_a, r) {
            None => {
                assert(hits_view(out@) + Seq::<(Seq<char>, Seq<char>, Seq<char>)>::empty() == hits_view(out@));
                return out;
            },
            Some(a) => {
                let after_class = a + 16;
                match find_exec(&h, &m.href, after_class) {
                    None => {
                        r = after_class;
                    },
                    Some(hp) => {
                        if utf8_len_exceeds(&h, after_class, hp, 50) {
                            r = after_class;
                        } else {
                            let after_href = hp + 6;
                            match find_exec(&h, &m.quote, after_href) {
                                None => {
                                    r = after_class;
                                },
                                Some(he) => {
                                    let raw = string_of(&h, after_href, he);
                                    let url = extract_ddg_url(raw.as_str());
                                    match find_exec(&h, &m.gt, he) {
                                        None => {
                                            r = after_href;
                                        },
                                        Some(gt) => {
                                            let inner = gt + 1;
                                            match find_exec(&h, &m.close_a, inner) {
                                                None => {
                                                    r = after_href;
                                                },
                                                Some(te) => {
                                                    let title = clean_text_exec(&h, inner, te);
                                                    let snippet = ddg_snippet_exec(&h, &m, te);
                                                    let ghost rest = ddg_from(h@, te as int);
                                                    if !title.as_str().is_empty() && !url.as_str().is_empty() {
                                                        let ghost item = (title@, url@, snippet@);
                                                        let hit = SearchHit { title, url, snippet };
                                                        assert(hits_view(out@.push(hit)) == hits_view(out@).push(item));
                                                        assert(hits_view(out@).push(item) + rest
                                                            == hits_view(out@) + (seq![item] + rest));
                                                        out.push(hit);
                                                    }
                                                    r = te;
                                                },
                                            }
                                        },
                                    }
                                },
                            }
                        }
                    },
                }
            },
        }
    }
}

// ---------------------------------------------------------------------------
// Bing
// ---------------------------------------------------------------------------

/// The cleaned text of `h[from..end]` where `end` is the first `</p>` in
/// `[from, be)`, or `be` where there is none.
pub open spec fn text_to_close_p(h: Seq<char>, from: int, be: int) -> Seq<char> {
    let end = match find_in(h, "</p>"@, from, be) {
        Some(e) => e,
        None => be,
    };
    clean_text(h, from, end)
}

/// The snippet of a Bing result block `[bs, be)`: the text of its first
/// `<p>`, or else of the first `<p...>` after `b_caption`; empty otherwise.
pub open spec fn bing_snippet(h: Seq<char>, bs: int, be: int) -> Seq<char> {
    match find_in(h, "<p>"@, bs, be) {
        Some(ps) => text_to_close_p(h, ps + 3, be),
        None => match find_in(h, "b_caption"@, bs, be) {
            Some(cs) => match find_in(h, "<p"@, cs, be) {
                Some(po) => match find_in(h, ">"@, po, be) {
                    Some(g) => text_to_close_p(h, g + 1, be),
                    None => Seq::empty(),
                },
                None => Seq::empty(),
            },
            None => Seq::empty(),
        },
    }
}

/// The title of a Bing result block whose first `href="` is at `hs`: the
/// cleaned text after the closing `>` of that tag up to `</a>`, within the
/// block; empty where either is missing.
pub open spec fn bing_title(h: Seq<char>, hs: int, be: int) -> Seq<char> {
    match find_in(h, ">"@, hs, be) {
        Some(c) => match find_in(h, "</a>"@, c + 1, be) {
            Some(e) => clean_text(h, c + 1, e),
            None => Seq::empty(),
        },
        None => Seq::empty(),
    }
}

/// The Bing results found in `h` from position `r` on, in page order. Each
/// `b_algo` block runs to the next one (or the end); it gives a result when it
/// holds an `href="`, its title is non-empty and its url starts with
/// `http://` or `https://`.
pub open spec fn bing_from(h: Seq<char>, r: int) -> Seq<(Seq<char>, Seq<char>, Seq<char>)>
    decreases h.len() - r,
{
    if r < 0 || r > h.len() {
        Seq::empty()
    } else {
        match find_from(h, "class=\"b_algo\""@, r) {
            None => Seq::empty(),
            Some(bs) => {
                let next = bs + 14;
                if next <= r || next > h.len() {
                    Seq::empty()
                } else {
                    let be = match find_from(h, "class=\"b_algo\""@, next) {
                        Some(p) => p,
                        None => h.len() as int,
                    };
                    match find_in(h, "href=\""@, bs, be) {
                        None => bing_from(h, next),
                        Some(hs) => {
                            let after = hs + 6;
                            let end = match find_in(h, "\""@, after, be) {
                                Some(e) => e,
                                None => be,
                            };
                            let url = h.subrange(after, end);
                            let title = bing_title(h, hs, be);
                            let snippet = bing_snippet(h, bs, be);
                            let rest = bing_from(h, next);
                            if title.len() > 0 && (starts_with(url, "http://"@) || starts_with(
                                url,
                                "https://"@,
                            )) {
                                seq![(title, url, snippet)] + rest
                            } else {
                                rest
                            }
                        },
                    }
                }
            },
        }
    }
}

/// Law: every hit read from a Bing result page, from any position on, has
/// a non-empty title and a url that starts with `http://` or `https://`.
pub proof fn law_bing_hits_complete(h: Seq<char>, r: int)
    ensures
        hits_complete(bing_from(h, r)),
    decreases h.len() - r,
{
    reveal_strlit("http://");
    if r < 0 || r > h.len() {
    } else {
        match find_from(h, "class=\"b_algo\""@, r) {
            None => {},
            Some(bs) => {
                let next = bs + 14;
                if next <= r || next > h.len() {
                } else {
                    let be = match find_from(h, "class=\"b_algo\""@, next) {
                        Some(p) => p,
                        None => h.len() as int,
                    };
                    match find_in(h, "href=\""@, bs, be) {
                        None => law_bing_hits_complete(h, next),
                        Some(hs) => {
                            let after = hs + 6;
                            let end = match find_in(h, "\""@, after, be) {
                                Some(e) => e,
                                None => be,
                            };
                            let url = h.subrange(after, end);
                            let title = bing_title(h, hs, be);
                            let snippet = bing_snippet(h, bs, be);
                            law_bing_hits_complete(h, next);
                            if title.len() > 0 && (starts_with(url, "http://"@) || starts_with(url, "https://"@)) {
                                reveal_strlit("https://");
                                assert(url.len() > 0);
                                lemma_complete_prepend((title, url, snippet), bing_from(h, next));
                            }
                        },
                    }
                }
            },
        }
    }
}

/// Law: a Bing result block yields a hit whenever its link has a non-empty
/// title and a url that starts with `http://` or `https://`. Where the
/// next block from `r` on starts at `bs` (and ends at `be`, the next block
/// or the end of the page) and its first `href="` is at `hs`, the hits read
/// from `r` on start with that block's title, url and snippet.
pub proof fn law_bing_block_gives_hit(h: Seq<char>, r: int, bs: int, hs: int)
    requires
        0 <= r <= h.len(),
        find_from(h, "class=\"b_algo\""@, r) == Some(bs),
        bs + 14 <= h.len(),
        find_in(h, "href=\""@, bs, bing_block_end(h, bs)) == Some(hs),
        bing_title(h, hs, bing_block_end(h, bs)).len() > 0,
        starts_with(bing_url(h, hs, bing_block_end(h, bs)), "http://"@)
            || starts_with(bing_url(h, hs, bing_block_end(h, bs)), "https://"@),
    ensures
        bing_from(h, r).len() >= 1,
        bing_from(h, r)[0] == (
            bing_title(h, hs, bing_block_end(h, bs)),
            bing_url(h, hs, bing_block_end(h, bs)),
            bing_snippet(h, bs, bing_block_end(h, bs)),
        ),
{
    reveal_strlit("class=\"b_algo\"");
    crate::text::lemma_find_in_props(h, "class=\"b_algo\""@, r, h.len() as int);
    let be = bing_block_end(h, bs);
    let x = (bing_title(h, hs, be), bing_url(h, hs, be), bing_snippet(h, bs, be));
    let rest = bing_from(h, bs + 14);
    assert(bing_from(h, r) == seq![x] + rest);
    assert((seq![x] + rest)[0] == x);
}

/// Where the Bing block that starts at `bs` ends: at the next block, or at
/// the end of the page.
pub open spec fn bing_block_end(h: Seq<char>, bs: int) -> int {
    match find_from(h, "class=\"b_algo\""@, bs + 14) {
        Some(p) => p,
        None => h.len() as int,
    }
}

/// The url of a Bing block's link whose `href="` is at `hs`: up to the
/// closing quote, or to the block's end.
pub open spec fn bing_url(h: Seq<char>, hs: int, be: int) -> Seq<char> {
    h.subrange(hs + 6, match find_in(h, "\""@, hs + 6, be) {
        Some(e) => e,
        None => be,
    })
}

/// The markers of a Bing result page.
struct BingMarkers {
    algo: Vec<char>,
    href: Vec<char>,
    quote: Vec<char>,
    gt: Vec<char>,
    close_a: Vec<char>,
    p_open: Vec<char>,
    p_close: Vec<char>,
    caption: Vec<char>,
    p_start: Vec<char>,
    http: Vec<char>,
    https: Vec<char>,
}

impl BingMarkers {
    spec fn wf(&self) -> bool {
        &&& self.algo@ == "class=\"b_algo\""@
        &&& self.href@ == "href=\""@
        &&& self.quote@ == "\""@
        &&& self.gt@ == ">"@
        &&& self.close_a@ == "</a>"@
        &&& self.p_open@ == "<p>"@
        &&& self.p_close@ == "</p>"@
        &&& self.caption@ == "b_caption"@
        &&& self.p_start@ == "<p"@
        &&& self.http@ == "http://"@
        &&& self.https@ == "https://"@
    }

    fn new() -> (m: BingMarkers)
        ensures
            m.wf(),
    {
        BingMarkers {
            algo: chars_of("class=\"b_algo\""),
            href: chars_of("href=\""),
            quote: chars_of("\""),
            gt: chars_of(">"),
            close_a: chars_of("</a>"),
            p_open: chars_of("<p>"),
            p_close: chars_of("</p>"),
            caption: chars_of("b_caption"),
            p_start: chars_of("<p"),
            http: chars_of("http://"),
            https: chars_of("https://"),
        }
    }
}

fn find_win(h: &Vec<char>, n: &Vec<char>, from: usize, to: usize) -> (r: Option<usize>)
    requires
        from <= to <= h.len(),
    ensures
        match r {
            Some(i) => find_in(h@, n@, from as int, to as int) == Some(i as int) && from <= i && i
                + n@.len() <= to,
            None => find_in(h@, n@, from as int, to as int) is None,
        },
{
    let r = find_in_exec(h, n, from, to);
    proof {
        crate::text::lemma_find_in_props(h@, n@, from as int, to as int);
    }
    r
}

fn text_to_close_p_exec(h: &Vec<char>, m: &BingMarkers, from: usize, be: usize) -> (r: String)
    requires
        m.wf(),
        from <= be <= h.len(),
    ensures
        r@ == text_to_close_p(h@, from as int, be as int),
{
    let end = match find_win(h, &m.p_close, from, be) {
        Some(e) => e,
        None => be,
    };
    clean_text_exec(h, from, end)
}

fn bing_snippet_exec(h: &Vec<char>, m: &BingMarkers, bs: usize, be: usize) -> (r: String)
    requires
        m.wf(),
        bs <= be <= h.len(),
    ensures
        r@ == bing_snippet(h@, bs as int, be as int),
{
    proof {
        reveal_strlit("<p>");
        reveal_strlit(">");
    }
    match find_win(h, &m.p_open, bs, be) {
        Some(ps) => text_to_close_p_exec(h, m, ps + 3, be),
        None => match find_win(h, &m.caption, bs, be) {
            Some(cs) => match find_win(h, &m.p_start, cs, be) {
                Some(po) => match find_win(h, &m.gt, po, be) {
                    Some(g) => text_to_close_p_exec(h, m, g + 1, be),
                    None => String::new(),
                },
                None => String::new(),
            },
            None => String::new(),
        },
    }
}

fn bing_title_exec(h: &Vec<char>, m: &BingMarkers, hs: usize, be: usize) -> (r: String)
    requires
        m.wf(),
        hs <= be <= h.len(),
    ensures
        r@ == bing_title(h@, hs as int, be as int),
{
    proof {
        reveal_strlit(">");
    }
    match find_win(h, &m.gt, hs, be) {
        Some(c) => match find_win(h, &m.close_a, c + 1, be) {
            Some(e) => clean_text_exec(h, c + 1, e),
            None => String::new(),
        },
        None => String::new(),
    }
}

/// Parses a Bing HTML result page into search results, in page order.
pub fn parse_bing_results(html: &str) -> (r: Vec<SearchHit>)
    ensures
        hits_view(r@) == bing_from(html@, 0),
{
    let h = chars_of(html);
    let m = BingMarkers::new();
    proof {
        reveal_strlit("class=\"b_algo\"");
        reveal_strlit("href=\"");
        reveal_strlit("\"");
    }
    let mut out: Vec<SearchHit> = Vec::new();
    let mut r: usize = 0;
    loop
        invariant
            h@ == html@,
            m.wf(),
            r <= h.len(),
            hits_view(out@) + bing_from(h@, r as int) == bing_from(h@, 0),
        decreases h.len() - r,
    {
        proof {
            reveal_strlit("class=\"b_algo\"");
            reveal_strlit("href=\"");
            reveal_strlit("\"");
        }
        match find_exec(&h, &m.algo, r) {
            None => {
                assert(hits_view(out@) + Seq::<(Seq<char>, Seq<char>, Seq<char>)>::empty() == hits_view(out@));
                return out;
            },
            Some(bs) => {
                let next = bs + 14;
                let be = match find_exec(&h, &m.algo, next) {
                    Some(p) => p,
                    None => h.len(),
                };
                match find_win(&h, &m.href, bs, be) {
                    None => {
                        r = next;
                    },
                    Some(hs) => {
                        let after = hs + 6;
                        let end = match find_win(&h, &m.quote, after, be) {
                            Some(e) => e,
                            None => be,
                        };
                        let url_chars_ok = {
                            let u = crate::text::string_of(&h, after, end);
                            let uv = chars_of(u.as_str());
                            (starts_with_exec(&uv, &m.http) || starts_with_exec(&uv, &m.https), u)
                        };
                        let (ok, url) = url_chars_ok;
                        let title = bing_title_exec(&h, &m, hs, be);
                        let snippet = bing_snippet_exec(&h, &m, bs, be);
                        let ghost rest = bing_from(h@, next as int);
                        if !title.as_str().is_empty() && ok {
                            let ghost item = (title@, url@, snippet@);
                            let hit = SearchHit { title, url, snippet };
                            assert(hits_view(out@.push(hit)) == hits_view(out@).push(item));
                            assert(hits_view(out@).push(item) + rest == hits_view(out@) + (seq![item]
                                + rest));
                            out.push(hit);
                        }
                        r = next;
                    },
                }
            },
        }
    }
}

// ---------------------------------------------------------------------------
// Serialization
// ---------------------------------------------------------------------------

/// The JSON object of one hit, keys in sorted order as `serde_json` writes
/// them: `{"snippet":..,"title":..,"url":..}`.
pub open spec fn hit_json(h: (Seq<char>, Seq<char>, Seq<char>)) -> Seq<char> {
    "{\"snippet\":"@ + crate::text::json_quote(h.2) + ",\"title\":"@ + crate::text::json_quote(h.0)
        + ",\"url\":"@ + crate::text::json_quote(h.1) + "}"@
}

/// The comma-separated JSON objects of `hs`.
pub open spec fn hits_json_items(hs: Seq<(Seq<char>, Seq<char>, Seq<char>)>) -> Seq<char>
    decreases hs.len(),
{
    if hs.len() == 0 {
        Seq::empty()
    } else if hs.len() == 1 {
        hit_json(hs[0])
    } else {
        hits_json_items(hs.drop_last()) + ","@ + hit_json(hs.last())
    }
}

/// The JSON array of `hs`.
pub open spec fn hits_json(hs: Seq<(Seq<char>, Seq<char>, Seq<char>)>) -> Seq<char> {
    "["@ + hits_json_items(hs) + "]"@
}

fn push_lit(out: &mut String, s: &str)
    ensures
        final(out)@ == old(out)@ + s@,
{
    out.append(s);
}

/// The JSON array of a list of hits, as the search ops return it.
pub fn hits_to_json(hits: &Vec<SearchHit>) -> (r: String)
    ensures
        r@ == hits_json(hits_view(hits@)),
{
    let mut out = String::new();
    push_lit(&mut out, "[");
    let mut i: usize = 0;
    while i < hits.len()
        invariant
            i <= hits.len(),
            out@ == "["@ + hits_json_items(hits_view(hits@.subrange(0, i as int))),
        decreases hits.len() - i,
    {
        let ghost before = out@;
        let ghost sub = hits_view(hits@.subrange(0, i + 1));
        assert(sub.drop_last() == hits_view(hits@.subrange(0, i as int)));
        assert(sub.last() == hits@[i as int]@);
        if i > 0 {
            push_lit(&mut out, ",");
        }
        push_lit(&mut out, "{\"snippet\":");
        crate::text::push_json_string(&mut out, hits[i].snippet.as_str());
        push_lit(&mut out, ",\"title\":");
        crate::text::push_json_string(&mut out, hits[i].title.as_str());
        push_lit(&mut out, ",\"url\":");
        crate::text::push_json_string(&mut out, hits[i].url.as_str());
        push_lit(&mut out, "}");
        proof {
            let hj = hit_json(hits@[i as int]@);
            if i > 0 {
                assert(out@ == before + ","@ + hj);
                assert(before + ","@ + hj == "["@ + (hits_json_items(sub.drop_last()) + ","@ + hj));
            } else {
                assert(hits_view(hits@.subrange(0, 0)).len() == 0);
                assert(out@ == before + hj);
                assert(sub.len() == 1);
            }
        }
        i = i + 1;
    }
    assert(hits@.subrange(0, hits@.len() as int) == hits@);
    push_lit(&mut out, "]");
    out
}

} // verus!
