//! The URL ops: parsing a URL into its components, editing one component,
//! and resolving a URL against a base.

use vstd::prelude::*;
use crate::text::{
    all_digits, chars_of, dec, eq_str, find_char, find_char_exec, json_quote, parse_unsigned,
    parse_unsigned_exec, push_dec, push_json_string, push_str, string_from, string_of,
};
use crate::weburl::{
    url_after_set_fragment, url_after_set_password, url_after_set_path, url_after_set_port,
    url_after_set_query, url_after_set_scheme, url_after_set_username, url_fragment_of,
    url_host_str_of, url_join, url_join_result, url_origin_of, url_parse, url_parse_result,
    url_password_of, url_path_of, url_port_of, url_query_of, url_scheme_of, url_set_host_result,
    url_username_of, UrlRecord, WebUrl,
};

verus! {

/// The reply for an input that is not a URL.
pub open spec fn not_ok_json() -> Seq<char> {
    "{\"ok\":false}"@
}

/// `s` if `o` is `Some(s)`, the empty sequence otherwise.
pub open spec fn or_empty(o: Option<Seq<char>>) -> Seq<char> {
    match o {
        Some(s) => s,
        None => Seq::empty(),
    }
}

/// `prefix + s` where `o` is `Some(s)` with `s` non-empty, empty otherwise.
pub open spec fn marked(prefix: char, o: Option<Seq<char>>) -> Seq<char> {
    match o {
        Some(s) => if s.len() > 0 {
            seq![prefix] + s
        } else {
            Seq::empty()
        },
        None => Seq::empty(),
    }
}

/// The port as text: its decimal digits, or empty where the URL has none.
pub open spec fn port_text(u: UrlRecord) -> Seq<char> {
    match url_port_of(u) {
        Some(p) => dec(p as nat),
        None => Seq::empty(),
    }
}

/// The `host` component: empty without a host name, the host name alone
/// without a port, `hostname:port` otherwise.
pub open spec fn host_text(u: UrlRecord) -> Seq<char> {
    let hostname = or_empty(url_host_str_of(u));
    let port = port_text(u);
    if hostname.len() == 0 {
        Seq::empty()
    } else if port.len() == 0 {
        hostname
    } else {
        hostname + seq![':'] + port
    }
}

/// The JSON object of a URL's components, keys in sorted order.
pub open spec fn components_json(u: UrlRecord) -> Seq<char> {
    "{\"hash\":"@ + json_quote(marked('#', url_fragment_of(u))) + ",\"host\":"@ + json_quote(
        host_text(u),
    ) + ",\"hostname\":"@ + json_quote(or_empty(url_host_str_of(u))) + ",\"href\":"@
        + json_quote(u.href) + ",\"ok\":true,\"origin\":"@ + json_quote(url_origin_of(u))
        + ",\"password\":"@ + json_quote(or_empty(url_password_of(u))) + ",\"pathname\":"@
        + json_quote(url_path_of(u)) + ",\"port\":"@ + json_quote(port_text(u))
        + ",\"protocol\":"@ + json_quote(url_scheme_of(u) + seq![':']) + ",\"search\":"@
        + json_quote(marked('?', url_query_of(u))) + ",\"username\":"@ + json_quote(
        url_username_of(u),
    ) + "}"@
}

proof fn lemma_dec_nonempty(n: nat)
    ensures
        dec(n).len() > 0,
    decreases n,
{
    if n >= 10 {
        lemma_dec_nonempty(n / 10);
    }
}

fn marked_string(prefix: char, o: Option<String>) -> (r: String)
    ensures
        r@ == marked(prefix, match o {
            Some(s) => Some(s@),
            None => None,
        }),
{
    match o {
        Some(s) => {
            if s.as_str().is_empty() {
                String::new()
            } else {
                let mut out = String::new();
                out.push(prefix);
                push_str(&mut out, s.as_str());
                assert(out@ == seq![prefix] + s@);
                out
            }
        },
        None => String::new(),
    }
}

/// The JSON object of the components of `u`: `ok`, `href`, `protocol`,
/// `username`, `password`, `host`, `hostname`, `port`, `pathname`, `search`,
/// `hash` and `origin`.
pub fn url_components(u: &WebUrl) -> (r: String)
    ensures
        r@ == components_json(u@),
{
    let href = u.href();
    let hostname = match u.host_str() {
        Some(h) => h,
        None => String::new(),
    };
    let mut port = String::new();
    let has_port = match u.port() {
        Some(p) => {
            push_dec(&mut port, p as u64);
            proof {
                lemma_dec_nonempty(p as nat);
            }
            true
        },
        None => false,
    };
    assert(port@ == port_text(u@));
    let host = if hostname.as_str().is_empty() {
        String::new()
    } else if !has_port {
        hostname.clone()
    } else {
        let mut h = hostname.clone();
        h.push(':');
        push_str(&mut h, port.as_str());
        h
    };
    assert(host@ == host_text(u@));
    let search = marked_string('?', u.query());
    assert(search@ == marked('?', url_query_of(u@)));
    let hash = marked_string('#', u.fragment());
    assert(hash@ == marked('#', url_fragment_of(u@)));
    let password = match u.password() {
        Some(p) => p,
        None => String::new(),
    };
    assert(password@ == or_empty(url_password_of(u@)));
    assert(hostname@ == or_empty(url_host_str_of(u@)));
    let mut protocol = u.scheme();
    protocol.push(':');
    assert(protocol@ == url_scheme_of(u@) + seq![':']);
    let origin = u.origin();
    let path = u.path();
    let username = u.username();
    let mut out = String::new();
    push_str(&mut out, "{\"hash\":");
    assert(out@ == "{\"hash\":"@) by {
        assert(Seq::<char>::empty() + "{\"hash\":"@ == "{\"hash\":"@);
    }
    push_json_string(&mut out, hash.as_str());
    push_str(&mut out, ",\"host\":");
    push_json_string(&mut out, host.as_str());
    push_str(&mut out, ",\"hostname\":");
    push_json_string(&mut out, hostname.as_str());
    push_str(&mut out, ",\"href\":");
    push_json_string(&mut out, href.as_str());
    push_str(&mut out, ",\"ok\":true,\"origin\":");
    push_json_string(&mut out, origin.as_str());
    push_str(&mut out, ",\"password\":");
    push_json_string(&mut out, password.as_str());
    push_str(&mut out, ",\"pathname\":");
    push_json_string(&mut out, path.as_str());
    push_str(&mut out, ",\"port\":");
    push_json_string(&mut out, port.as_str());
    push_str(&mut out, ",\"protocol\":");
    push_json_string(&mut out, protocol.as_str());
    push_str(&mut out, ",\"search\":");
    push_json_string(&mut out, search.as_str());
    push_str(&mut out, ",\"username\":");
    push_json_string(&mut out, username.as_str());
    push_str(&mut out, "}");
    out
}

/// `href` parsed, or resolved against `base` where `base` is non-empty.
pub open spec fn parse_with_base(href: Seq<char>, base: Seq<char>) -> Option<UrlRecord> {
    if base.len() == 0 {
        url_parse_result(href)
    } else {
        match url_parse_result(base) {
            Some(b) => url_join_result(b, href),
            None => None,
        }
    }
}

fn parse_with_base_exec(href: &str, base: &str) -> (r: Option<WebUrl>)
    ensures
        match r {
            Some(u) => parse_with_base(href@, base@) == Some(u@),
            None => parse_with_base(href@, base@) is None,
        },
{
    if base.is_empty() {
        match url_parse(href) {
            Ok(u) => Some(u),
            Err(_) => None,
        }
    } else {
        match url_parse(base) {
            Ok(b) => match url_join(&b, href) {
                Ok(u) => Some(u),
                Err(_) => None,
            },
            Err(_) => None,
        }
    }
}

/// `op_url_parse`: the components of `href`, resolved against `base` where
/// `base` is non-empty, or `{"ok":false}` where that does not give a URL.
pub fn op_url_parse_impl(href: &str, base: &str) -> (r: String)
    ensures
        r@ == match parse_with_base(href@, base@) {
            Some(h) => components_json(h),
            None => not_ok_json(),
        },
{
    match parse_with_base_exec(href, base) {
        Some(u) => url_components(&u),
        None => string_from("{\"ok\":false}"),
    }
}

/// `op_url_resolve`: the serialization of `href` resolved against `base`
/// (or parsed alone where `base` is empty), or the empty string.
pub fn op_url_resolve_impl(href: &str, base: &str) -> (r: String)
    ensures
        r@ == match parse_with_base(href@, base@) {
            Some(u) => u.href,
            None => Seq::empty(),
        },
{
    match parse_with_base_exec(href, base) {
        Some(u) => u.href(),
        None => String::new(),
    }
}

/// The last position holding `c`, if any.
pub open spec fn rfind_char(s: Seq<char>, c: char) -> Option<int>
    decreases s.len(),
{
    if s.len() == 0 {
        None
    } else if s.last() == c {
        Some(s.len() - 1)
    } else {
        rfind_char(s.drop_last(), c)
    }
}

fn rfind_char_exec(s: &Vec<char>, c: char) -> (r: Option<usize>)
    ensures
        match r {
            Some(i) => rfind_char(s@, c) == Some(i as int) && i < s.len(),
            None => rfind_char(s@, c) is None,
        },
{
    let mut i = s.len();
    assert(s@.subrange(0, s@.len() as int) == s@);
    while i > 0
        invariant
            i <= s.len(),
            rfind_char(s@, c) == rfind_char(s@.subrange(0, i as int), c),
        decreases i,
    {
        let ghost p = s@.subrange(0, i as int);
        assert(p.last() == s@[i - 1]);
        assert(p.drop_last() == s@.subrange(0, i - 1));
        if s[i - 1] == c {
            return Some(i - 1);
        }
        i = i - 1;
    }
    None
}

/// Number of trailing `c` chars of `s`.
pub open spec fn trailing(s: Seq<char>, c: char) -> nat
    decreases s.len(),
{
    if s.len() > 0 && s.last() == c {
        1 + trailing(s.drop_last(), c)
    } else {
        0
    }
}

/// `str::trim_end_matches(c)`.
pub open spec fn trim_end_char(s: Seq<char>, c: char) -> Seq<char> {
    s.subrange(0, s.len() - trailing(s, c))
}

proof fn lemma_trailing_bound(s: Seq<char>, c: char)
    ensures
        trailing(s, c) <= s.len(),
    decreases s.len(),
{
    if s.len() > 0 && s.last() == c {
        lemma_trailing_bound(s.drop_last(), c);
    }
}

/// The length of `s` without its trailing `c` chars.
pub fn trim_end_char_len(s: &Vec<char>, c: char) -> (r: usize)
    ensures
        r <= s.len(),
        s@.subrange(0, r as int) == trim_end_char(s@, c),
{
    let mut e = s.len();
    assert(s@.subrange(0, s@.len() as int) == s@);
    while e > 0 && s[e - 1] == c
        invariant
            e <= s.len(),
            trailing(s@, c) == (s.len() - e) + trailing(s@.subrange(0, e as int), c),
        decreases e,
    {
        let ghost p = s@.subrange(0, e as int);
        assert(p.last() == s@[e - 1]);
        assert(p.drop_last() == s@.subrange(0, e - 1));
        e = e - 1;
    }
    proof {
        let p = s@.subrange(0, e as int);
        if e > 0 {
            assert(p.last() == s@[e - 1]);
        }
        lemma_trailing_bound(s@, c);
    }
    e
}

/// `s` without one leading `c`, if it starts with one.
pub open spec fn strip_one(s: Seq<char>, c: char) -> Seq<char> {
    if s.len() > 0 && s[0] == c {
        s.drop_first()
    } else {
        s
    }
}

/// `Some(s)`, or `None` where `s` is empty.
pub open spec fn none_if_empty(s: Seq<char>) -> Option<Seq<char>> {
    if s.len() == 0 {
        None
    } else {
        Some(s)
    }
}

/// The port number of `s`, as `str::parse::<u16>` reads it.
pub open spec fn parse_port(s: Seq<char>) -> Option<u16> {
    match parse_unsigned(s, 65535) {
        Some(p) => Some(p as u16),
        None => None,
    }
}

/// Law: a port written in decimal reads back as itself, and the `host`
/// component is the host name, followed by `:` and the port where the URL
/// has one (empty without a host name).
pub proof fn law_port_and_host_text(p: u16, u: UrlRecord)
    ensures
        parse_port(dec(p as nat)) == Some(p),
        url_port_of(u) == Some(p) ==> port_text(u) == dec(p as nat),
        url_port_of(u) is None ==> port_text(u).len() == 0,
        or_empty(url_host_str_of(u)).len() > 0 && url_port_of(u) is None ==> host_text(u) == or_empty(url_host_str_of(u)),
        or_empty(url_host_str_of(u)).len() > 0 && url_port_of(u) == Some(p) ==> host_text(u) == or_empty(
            url_host_str_of(u),
        ) + seq![':'] + dec(p as nat),
        or_empty(url_host_str_of(u)).len() == 0 ==> host_text(u).len() == 0,
{
    crate::text::law_dec_reads_back(p as nat, 65535);
}

fn parse_port_exec(s: &Vec<char>, from: usize, to: usize) -> (r: Option<u16>)
    requires
        from <= to <= s.len(),
    ensures
        r == parse_port(s@.subrange(from as int, to as int)),
{
    match parse_unsigned_exec(s, from, to, 65535) {
        Some(p) => Some(p as u16),
        None => None,
    }
}

/// The record after setting the `host` component to `v`: a bracketed
/// IPv6 host with an optional `:port`, or `host:port` where the text after
/// the last `:` is empty or all digits (an empty port removes the port), or a
/// host alone. The port is set only where the host was accepted.
pub open spec fn after_set_host_port(href: UrlRecord, v: Seq<char>) -> UrlRecord {
    let bracket = if v.len() > 0 && v[0] == '[' {
        find_char(v, ']', 0)
    } else {
        None
    };
    match bracket {
        Some(close) => {
            let host = v.subrange(0, close + 1);
            let rest = v.subrange(close + 1, v.len() as int);
            let (ok, h1) = url_set_host_result(href, Some(host));
            if ok && rest.len() > 0 && rest[0] == ':' {
                match parse_port(rest.drop_first()) {
                    Some(p) => url_after_set_port(h1, Some(p)),
                    None => h1,
                }
            } else {
                h1
            }
        },
        None => {
            let split = match rfind_char(v, ':') {
                Some(idx) => {
                    let p = v.subrange(idx + 1, v.len() as int);
                    if p.len() == 0 || all_digits(p) {
                        Some(idx)
                    } else {
                        None
                    }
                },
                None => None,
            };
            match split {
                Some(idx) => {
                    let p = v.subrange(idx + 1, v.len() as int);
                    let (ok, h1) = url_set_host_result(href, Some(v.subrange(0, idx)));
                    if !ok {
                        h1
                    } else if p.len() == 0 {
                        url_after_set_port(h1, None)
                    } else {
                        match parse_port(p) {
                            Some(pn) => url_after_set_port(h1, Some(pn)),
                            None => h1,
                        }
                    }
                },
                None => url_set_host_result(href, Some(v)).1,
            }
        },
    }
}

fn all_digits_exec(s: &Vec<char>, from: usize, to: usize) -> (r: bool)
    requires
        from <= to <= s.len(),
    ensures
        r == all_digits(s@.subrange(from as int, to as int)),
{
    let mut i = from;
    while i < to
        invariant
            from <= i <= to <= s.len(),
            all_digits(s@.subrange(from as int, i as int)),
        decreases to - i,
    {
        if !('0' <= s[i] && s[i] <= '9') {
            assert(!crate::text::is_digit(s@.subrange(from as int, to as int)[i - from]));
            return false;
        }
        proof {
            let p = s@.subrange(from as int, i + 1);
            assert forall|k: int| 0 <= k < p.len() implies crate::text::is_digit(#[trigger] p[k]) by {
                if k < p.len() - 1 {
                    assert(p[k] == s@.subrange(from as int, i as int)[k]);
                }
            }
        }
        i = i + 1;
    }
    true
}

/// Sets the host, and with it the port, from `value`.
pub fn set_host_port(u: &mut WebUrl, value: &str)
    ensures
        final(u)@ == after_set_host_port(old(u)@, value@),
{
    let v = chars_of(value);
    let bracket = if v.len() > 0 && v[0] == '[' {
        find_char_exec(&v, ']', 0)
    } else {
        None
    };
    if let Some(close) = bracket {
        proof {
            crate::text::lemma_find_char_props(v@, ']', 0);
        }
        let host = string_of(&v, 0, close + 1);
        if u.set_host(Some(host.as_str())) {
            if close + 1 < v.len() && v[close + 1] == ':' {
                let ghost rest = v@.subrange(close + 1, v.len() as int);
                assert(rest.drop_first() == v@.subrange(close + 2, v.len() as int));
                if let Some(pn) = parse_port_exec(&v, close + 2, v.len()) {
                    u.set_port(Some(pn));
                }
            }
        }
        return;
    }
    let split = match rfind_char_exec(&v, ':') {
        Some(idx) => {
            if idx + 1 == v.len() || all_digits_exec(&v, idx + 1, v.len()) {
                Some(idx)
            } else {
                None
            }
        },
        None => None,
    };
    match split {
        Some(idx) => {
            let h = string_of(&v, 0, idx);
            if u.set_host(Some(h.as_str())) {
                if idx + 1 == v.len() {
                    u.set_port(None);
                } else if let Some(pn) = parse_port_exec(&v, idx + 1, v.len()) {
                    u.set_port(Some(pn));
                }
            }
        },
        None => {
            let _ = u.set_host(Some(value));
        },
    }
}

/// The record of `href` after setting the component `part` (one of
/// `protocol`, `username`, `password`, `host`, `hostname`, `port`,
/// `pathname`, `search`, `hash`) to `value`; other parts leave it unchanged.
pub open spec fn after_set_part(href: UrlRecord, part: Seq<char>, value: Seq<char>) -> UrlRecord {
    if part == "protocol"@ {
        url_after_set_scheme(href, trim_end_char(value, ':'))
    } else if part == "username"@ {
        url_after_set_username(href, value)
    } else if part == "password"@ {
        url_after_set_password(href, none_if_empty(value))
    } else if part == "host"@ {
        after_set_host_port(href, value)
    } else if part == "hostname"@ {
        if value.len() > 0 {
            url_set_host_result(href, Some(value)).1
        } else {
            href
        }
    } else if part == "port"@ {
        if value.len() == 0 {
            url_after_set_port(href, None)
        } else {
            match parse_port(value) {
                Some(p) => url_after_set_port(href, Some(p)),
                None => href,
            }
        }
    } else if part == "pathname"@ {
        url_after_set_path(href, value)
    } else if part == "search"@ {
        url_after_set_query(href, none_if_empty(strip_one(value, '?')))
    } else if part == "hash"@ {
        url_after_set_fragment(href, none_if_empty(strip_one(value, '#')))
    } else {
        href
    }
}

/// Law: each component name edits its own part of the URL. `protocol`
/// sets the scheme (without a trailing `:`), `username` the user name,
/// `password` the password (an empty one removes it), `pathname` the path,
/// `search` the query (without a leading `?`; empty removes it), `hash` the
/// fragment (without a leading `#`; empty removes it), `hostname` the host
/// (an empty one changes nothing), `port` the port (empty removes it, a
/// text that is not a port number changes nothing); an unknown name
/// changes nothing.
pub proof fn law_set_part_names(u: UrlRecord, part: Seq<char>, value: Seq<char>)
    ensures
        part == "protocol"@ ==> after_set_part(u, part, value) == url_after_set_scheme(u, trim_end_char(value, ':')),
        part == "username"@ ==> after_set_part(u, part, value) == url_after_set_username(u, value),
        part == "password"@ && value.len() == 0 ==> after_set_part(u, part, value) == url_after_set_password(u, None),
        part == "password"@ && value.len() > 0 ==> after_set_part(u, part, value) == url_after_set_password(u, Some(value)),
        part == "pathname"@ ==> after_set_part(u, part, value) == url_after_set_path(u, value),
        part == "search"@ ==> after_set_part(u, part, value) == url_after_set_query(u, none_if_empty(strip_one(value, '?'))),
        part == "hash"@ ==> after_set_part(u, part, value) == url_after_set_fragment(u, none_if_empty(strip_one(value, '#'))),
        part == "hostname"@ && value.len() > 0 ==> after_set_part(u, part, value) == url_set_host_result(u, Some(value)).1,
        part == "hostname"@ && value.len() == 0 ==> after_set_part(u, part, value) == u,
        part == "port"@ && value.len() == 0 ==> after_set_part(u, part, value) == url_after_set_port(u, None),
        part == "port"@ && value.len() > 0 && parse_port(value) is Some ==> after_set_part(u, part, value)
            == url_after_set_port(u, parse_port(value)),
        part == "port"@ && value.len() > 0 && parse_port(value) is None ==> after_set_part(u, part, value) == u,
        part == "host"@ ==> after_set_part(u, part, value) == after_set_host_port(u, value),
        part != "protocol"@ && part != "username"@ && part != "password"@ && part != "host"@ && part != "hostname"@
            && part != "port"@ && part != "pathname"@ && part != "search"@ && part != "hash"@ ==> after_set_part(
            u,
            part,
            value,
        ) == u,
{
    reveal_strlit("protocol");
    reveal_strlit("username");
    reveal_strlit("password");
    reveal_strlit("host");
    reveal_strlit("hostname");
    reveal_strlit("port");
    reveal_strlit("pathname");
    reveal_strlit("search");
    reveal_strlit("hash");
    assert("protocol"@[0] == 'p' && "username"@[0] == 'u' && "password"@[0] == 'p' && "hostname"@[0] == 'h'
        && "pathname"@[0] == 'p');
    assert("protocol"@[1] != "password"@[1] && "password"@[2] != "pathname"@[2] && "protocol"@[1] != "pathname"@[1]);
    assert("host"@[0] == 'h' && "port"@[0] == 'p' && "hash"@[0] == 'h' && "host"@[1] != "hash"@[1]);
    assert("host"@.len() == 4 && "hostname"@.len() == 8 && "search"@.len() == 6 && "port"@.len() == 4);
}

/// The components after an edit: `None` where `href` is not a URL, or where
/// `part` is `href` and `value` is not a URL.
pub open spec fn url_set_result(href: Seq<char>, part: Seq<char>, value: Seq<char>) -> Option<Seq<char>> {
    match url_parse_result(href) {
        None => None,
        Some(h0) => if part == "href"@ {
            match url_parse_result(value) {
                Some(n) => Some(components_json(n)),
                None => None,
            }
        } else {
            Some(components_json(after_set_part(h0, part, value)))
        },
    }
}

fn opt_str(s: &Vec<char>, from: usize) -> (r: Option<String>)
    requires
        from <= s.len(),
    ensures
        match r {
            Some(x) => x@ == s@.subrange(from as int, s.len() as int) && x@.len() > 0,
            None => s@.subrange(from as int, s.len() as int).len() == 0,
        },
{
    if from == s.len() {
        None
    } else {
        Some(string_of(s, from, s.len()))
    }
}

/// Sets one component of `u` from `value`.
fn set_part(u: &mut WebUrl, part: &str, value: &str)
    ensures
        final(u)@ == after_set_part(old(u)@, part@, value@),
{
    let p = chars_of(part);
    let v = chars_of(value);
    if eq_str(&p, "protocol") {
        let e = crate::urlops::trim_end_char_len(&v, ':');
        let s = string_of(&v, 0, e);
        u.set_scheme(s.as_str());
    } else if eq_str(&p, "username") {
        u.set_username(value);
    } else if eq_str(&p, "password") {
        if v.len() == 0 {
            u.set_password(None);
        } else {
            u.set_password(Some(value));
        }
    } else if eq_str(&p, "host") {
        set_host_port(u, value);
    } else if eq_str(&p, "hostname") {
        if v.len() > 0 {
            let _ = u.set_host(Some(value));
        }
    } else if eq_str(&p, "port") {
        if v.len() == 0 {
            u.set_port(None);
        } else {
            assert(v@.subrange(0, v@.len() as int) == v@);
            if let Some(pn) = parse_port_exec(&v, 0, v.len()) {
                u.set_port(Some(pn));
            }
        }
    } else if eq_str(&p, "pathname") {
        u.set_path(value);
    } else if eq_str(&p, "search") {
        let start: usize = if v.len() > 0 && v[0] == '?' { 1 } else { 0 };
        assert(v@.subrange(start as int, v@.len() as int) == strip_one(v@, '?'));
        match opt_str(&v, start) {
            Some(q) => u.set_query(Some(q.as_str())),
            None => u.set_query(None),
        }
    } else if eq_str(&p, "hash") {
        let start: usize = if v.len() > 0 && v[0] == '#' { 1 } else { 0 };
        assert(v@.subrange(start as int, v@.len() as int) == strip_one(v@, '#'));
        match opt_str(&v, start) {
            Some(f) => u.set_fragment(Some(f.as_str())),
            None => u.set_fragment(None),
        }
    }
}

/// Parses `href`, sets the component `part` to `value`, and returns the
/// components after the edit (`part == "href"` replaces the whole URL).
pub fn url_set_inner(href: &str, part: &str, value: &str) -> (r: Option<String>)
    ensures
        match r {
            Some(j) => url_set_result(href@, part@, value@) == Some(j@),
            None => url_set_result(href@, part@, value@) is None,
        },
{
    let mut u = match url_parse(href) {
        Ok(u) => u,
        Err(_) => return None,
    };
    let p = chars_of(part);
    if eq_str(&p, "href") {
        return match url_parse(value) {
            Ok(nu) => Some(url_components(&nu)),
            Err(_) => None,
        };
    }
    set_part(&mut u, part, value);
    Some(url_components(&u))
}

/// `op_url_set`: the components after setting `part` of `href` to `value`;
/// where the edit gives nothing, the components of `href` itself, or
/// `{"ok":false}` where `href` is not a URL.
pub fn op_url_set_impl(href: &str, part: &str, value: &str) -> (r: String)
    ensures
        r@ == match url_set_result(href@, part@, value@) {
            Some(j) => j,
            None => match url_parse_result(href@) {
                Some(h) => components_json(h),
                None => not_ok_json(),
            },
        },
{
    match url_set_inner(href, part, value) {
        Some(v) => v,
        None => match url_parse(href) {
            Ok(u) => url_components(&u),
            Err(_) => string_from("{\"ok\":false}"),
        },
    }
}

/// The reply of the text decoder: `{"ok":true,"v":...}` with the decoded
/// text, or `{"ok":false}` where the label or the bytes could not be decoded.
pub fn text_decode_reply(decoded: Option<&str>) -> (r: String)
    ensures
        r@ == match decoded {
            Some(t) => "{\"ok\":true,\"v\":"@ + json_quote(t@) + "}"@,
            None => not_ok_json(),
        },
{
    match decoded {
        Some(t) => {
            let mut s = string_from("{\"ok\":true,\"v\":");
            push_json_string(&mut s, t);
            push_str(&mut s, "}");
            s
        },
        None => string_from("{\"ok\":false}"),
    }
}

} // verus!
