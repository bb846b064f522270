//! Glob patterns of the URL blocking rules.
//!
//! `*` matches any run of chars (the empty one too), `?` any single char,
//! and every other char itself.

use vstd::prelude::*;
use crate::text::{chars_of, contains, contains_exec, matches_at, starts_with};

verus! {

/// Whether `pattern` matches all of `url`: the empty pattern matches only
/// the empty url; `*` matches the empty run, or takes one char of the url
/// and stays (so `*p` matches `u` when `p` matches some suffix of `u`, see
/// `law_glob_star_suffixes`); `?` matches one char; any other char matches
/// itself.
pub open spec fn glob_matches(pattern: Seq<char>, url: Seq<char>) -> bool
    decreases pattern.len(), url.len(),
{
    if pattern.len() == 0 {
        url.len() == 0
    } else if pattern[0] == '*' {
        glob_matches(pattern.drop_first(), url)
            || (url.len() > 0 && glob_matches(pattern, url.drop_first()))
    } else {
        url.len() > 0 && (pattern[0] == '?' || pattern[0] == url[0])
            && glob_matches(pattern.drop_first(), url.drop_first())
    }
}

/// Law: `*` followed by `p` matches `u` exactly when `p` matches some
/// suffix of `u`.
pub proof fn law_glob_star_suffixes(pattern: Seq<char>, url: Seq<char>)
    requires
        pattern.len() > 0,
        pattern[0] == '*',
    ensures
        glob_matches(pattern, url) <==> exists|k: int|
            0 <= k <= url.len() && #[trigger] glob_matches(pattern.drop_first(), url.subrange(k, url.len() as int)),
    decreases url.len(),
{
    let p1 = pattern.drop_first();
    assert(url.subrange(0, url.len() as int) =~= url);
    assert(glob_matches(p1, url.subrange(0, url.len() as int)) == glob_matches(p1, url));
    if url.len() > 0 {
        let u1 = url.drop_first();
        law_glob_star_suffixes(pattern, u1);
        if glob_matches(pattern, u1) {
            let k = choose|k: int| 0 <= k <= u1.len() && #[trigger] glob_matches(p1, u1.subrange(k, u1.len() as int));
            assert(u1.subrange(k, u1.len() as int) =~= url.subrange(k + 1, url.len() as int));
            assert(glob_matches(p1, url.subrange(k + 1, url.len() as int)));
        }
        if exists|k: int| 0 <= k <= url.len() && #[trigger] glob_matches(p1, url.subrange(k, url.len() as int)) {
            let k = choose|k: int| 0 <= k <= url.len() && #[trigger] glob_matches(p1, url.subrange(k, url.len() as int));
            if k > 0 {
                assert(u1.subrange(k - 1, u1.len() as int) =~= url.subrange(k, url.len() as int));
                assert(glob_matches(p1, u1.subrange(k - 1, u1.len() as int)));
            }
        }
    } else {
        if exists|k: int| 0 <= k <= url.len() && #[trigger] glob_matches(p1, url.subrange(k, url.len() as int)) {
            let k = choose|k: int| 0 <= k <= url.len() && #[trigger] glob_matches(p1, url.subrange(k, url.len() as int));
            assert(k == 0);
        }
    }
}

/// Pattern from position `i` against url from position `j`.
pub open spec fn glob_from(p: Seq<char>, u: Seq<char>, i: int, j: int) -> bool {
    glob_matches(p.subrange(i, p.len() as int), u.subrange(j, u.len() as int))
}

proof fn lemma_glob_end(p: Seq<char>, u: Seq<char>, j: int)
    requires
        0 <= j <= u.len(),
    ensures
        glob_from(p, u, p.len() as int, j) == (j == u.len()),
{
    assert(p.subrange(p.len() as int, p.len() as int).len() == 0);
}

proof fn lemma_glob_step(p: Seq<char>, u: Seq<char>, i: int, j: int)
    requires
        0 <= i < p.len(),
        0 <= j <= u.len(),
    ensures
        p[i] == '*' ==> glob_from(p, u, i, j) == (glob_from(p, u, i + 1, j)
            || (j < u.len() && glob_from(p, u, i, j + 1))),
        p[i] != '*' ==> glob_from(p, u, i, j) == (j < u.len() && (p[i] == '?' || p[i] == u[j])
            && glob_from(p, u, i + 1, j + 1)),
{
    let ps = p.subrange(i, p.len() as int);
    let us = u.subrange(j, u.len() as int);
    assert(ps.drop_first() =~= p.subrange(i + 1, p.len() as int));
    assert(ps.len() > 0);
    assert(ps[0] == p[i]);
    if j < u.len() {
        assert(us.drop_first() =~= u.subrange(j + 1, u.len() as int));
        assert(us[0] == u[j]);
    }
}

/// Glob pattern matcher of the URL blocking rules: `*` matches any sequence
/// of chars, `?` a single char.
pub fn glob_match(pattern: &str, url: &str) -> (r: bool)
    ensures
        r == glob_matches(pattern@, url@),
{
    let p = chars_of(pattern);
    let u = chars_of(url);
    let m = u.len();
    // `next[t]` for `t < m`, and `next_end` for `t == m`: whether the
    // pattern from `i` on matches the url from `t` on.
    let mut next: Vec<bool> = Vec::new();
    let mut j: usize = 0;
    while j < m
        invariant
            j <= m,
            m == u.len(),
            next.len() == j,
            forall|t: int| 0 <= t < j ==> next@[t] == glob_from(p@, u@, p.len() as int, t),
        decreases m - j,
    {
        proof { lemma_glob_end(p@, u@, j as int); }
        next.push(false);
        j = j + 1;
    }
    let mut next_end = true;
    proof { lemma_glob_end(p@, u@, m as int); }
    let mut i: usize = p.len();
    while i > 0
        invariant
            i <= p.len(),
            m == u.len(),
            next.len() == m,
            forall|t: int| 0 <= t < m ==> next@[t] == glob_from(p@, u@, i as int, t),
            next_end == glob_from(p@, u@, i as int, m as int),
        decreases i,
    {
        let pi = i - 1;
        let c = p[pi];
        let mut cur: Vec<bool> = Vec::new();
        let mut t: usize = 0;
        while t < m
            invariant
                t <= m,
                cur.len() == t,
                m == u.len(),
            decreases m - t,
        {
            cur.push(false);
            t = t + 1;
        }
        proof { lemma_glob_step(p@, u@, pi as int, m as int); }
        let cur_end = if c == '*' { next_end } else { false };
        if c == '*' {
            let mut k: usize = m;
            while k > 0
                invariant
                    k <= m,
                    m == u.len(),
                    cur.len() == m,
                    next.len() == m,
                    pi < p.len(),
                    p[pi as int] == '*',
                    forall|t: int| 0 <= t < m ==> next@[t] == glob_from(p@, u@, pi + 1, t),
                    cur_end == glob_from(p@, u@, pi as int, m as int),
                    forall|t: int| k <= t < m ==> cur@[t] == glob_from(p@, u@, pi as int, t),
                decreases k,
            {
                k = k - 1;
                proof { lemma_glob_step(p@, u@, pi as int, k as int); }
                let later = if k + 1 < m { cur[k + 1] } else { cur_end };
                let v = next[k] || later;
                cur.set(k, v);
            }
        } else {
            let mut k: usize = 0;
            while k < m
                invariant
                    k <= m,
                    m == u.len(),
                    cur.len() == m,
                    next.len() == m,
                    pi < p.len(),
                    c == p[pi as int],
                    c != '*',
                    forall|t: int| 0 <= t < m ==> next@[t] == glob_from(p@, u@, pi + 1, t),
                    next_end == glob_from(p@, u@, pi + 1, m as int),
                    forall|t: int| 0 <= t < k ==> cur@[t] == glob_from(p@, u@, pi as int, t),
                decreases m - k,
            {
                proof { lemma_glob_step(p@, u@, pi as int, k as int); }
                let later = if k + 1 < m { next[k + 1] } else { next_end };
                let v = (c == '?' || c == u[k]) && later;
                cur.set(k, v);
                k = k + 1;
            }
        }
        next = cur;
        next_end = cur_end;
        i = pi;
    }
    proof {
        assert(p@.subrange(0, p.len() as int) =~= p@);
        assert(u@.subrange(0, u.len() as int) =~= u@);
    }
    if m == 0 { next_end } else { next[0] }
}

/// A pattern char that is not a wildcard.
pub open spec fn is_literal(c: char) -> bool {
    c != '*' && c != '?'
}

/// Pattern `p` and url `u` have one length and agree char by char, where
/// `?` stands for any char.
pub open spec fn agrees(p: Seq<char>, u: Seq<char>) -> bool {
    p.len() == u.len() && forall|k: int| 0 <= k < p.len() ==> (#[trigger] p[k] == u[k] || p[k] == '?')
}

/// Law: a pattern without `*` matches exactly the urls of its own length
/// that agree with it at every position, `?` standing for any char.
pub proof fn law_glob_without_star(pattern: Seq<char>, url: Seq<char>)
    requires
        forall|k: int| 0 <= k < pattern.len() ==> pattern[k] != '*',
    ensures
        glob_matches(pattern, url) == agrees(pattern, url),
    decreases pattern.len(),
{
    if pattern.len() > 0 {
        let p1 = pattern.drop_first();
        assert forall|k: int| 0 <= k < p1.len() implies p1[k] != '*' by {
            assert(p1[k] == pattern[k + 1]);
        }
        if url.len() > 0 {
            let u1 = url.drop_first();
            law_glob_without_star(p1, u1);
            if agrees(p1, u1) && (pattern[0] == '?' || pattern[0] == url[0]) {
                assert forall|k: int| 0 <= k < pattern.len() implies (#[trigger] pattern[k] == url[k] || pattern[k] == '?') by {
                    if k > 0 {
                        assert(p1[k - 1] == u1[k - 1] || p1[k - 1] == '?');
                    }
                }
            }
            if agrees(pattern, url) {
                assert(pattern[0] == url[0] || pattern[0] == '?');
                assert forall|k: int| 0 <= k < p1.len() implies (#[trigger] p1[k] == u1[k] || p1[k] == '?') by {
                    assert(pattern[k + 1] == url[k + 1] || pattern[k + 1] == '?');
                }
            }
        }
    }
}

/// Law: a pattern without wildcards matches a url exactly when it equals it.
pub proof fn law_glob_literal_is_equality(pattern: Seq<char>, url: Seq<char>)
    requires
        forall|k: int| 0 <= k < pattern.len() ==> is_literal(pattern[k]),
    ensures
        glob_matches(pattern, url) == (pattern == url),
{
    law_glob_without_star(pattern, url);
    if agrees(pattern, url) {
        assert(pattern =~= url) by {
            assert forall|k: int| 0 <= k < pattern.len() implies pattern[k] == url[k] by {
                assert(pattern[k] == url[k] || pattern[k] == '?');
            }
        }
    }
}

/// Law: the pattern `*` matches every url.
pub proof fn law_glob_star_matches_all(url: Seq<char>)
    ensures
        glob_matches(seq!['*'], url),
{
    let p = seq!['*'];
    assert(p.len() == 1 && p[0] == '*');
    assert(p.drop_first().len() == 0);
    law_glob_star_suffixes(p, url);
    assert(url.subrange(url.len() as int, url.len() as int).len() == 0);
    assert(glob_matches(p.drop_first(), url.subrange(url.len() as int, url.len() as int)));
}

/// Law: a pattern that ends in `*` after a prefix without wildcards matches
/// every url that starts with that prefix.
pub proof fn law_glob_prefix_star(prefix: Seq<char>, url: Seq<char>)
    requires
        forall|k: int| 0 <= k < prefix.len() ==> is_literal(prefix[k]),
        starts_with(url, prefix),
    ensures
        glob_matches(prefix.push('*'), url),
    decreases prefix.len(),
{
    if prefix.len() == 0 {
        assert(prefix.push('*') =~= seq!['*']);
        law_glob_star_matches_all(url);
    } else {
        let p1 = prefix.drop_first();
        let u1 = url.drop_first();
        assert(url.subrange(0, prefix.len() as int)[0] == url[0]);
        assert forall|k: int| 0 <= k < p1.len() implies is_literal(p1[k]) by {
            assert(p1[k] == prefix[k + 1]);
        }
        assert(u1.subrange(0, p1.len() as int) =~= url.subrange(0, prefix.len() as int).drop_first());
        law_glob_prefix_star(p1, u1);
        assert(prefix.push('*').drop_first() =~= p1.push('*'));
        assert(prefix.push('*')[0] == prefix[0]);
    }
}

/// Law: `*` followed by a pattern without wildcards matches exactly the urls
/// that end with that text.
pub proof fn law_glob_star_suffix(suffix: Seq<char>, url: Seq<char>)
    requires
        forall|k: int| 0 <= k < suffix.len() ==> is_literal(suffix[k]),
    ensures
        glob_matches(seq!['*'] + suffix, url) == (suffix.len() <= url.len()
            && url.subrange(url.len() - suffix.len(), url.len() as int) == suffix),
{
    let p = seq!['*'] + suffix;
    assert(p.drop_first() =~= suffix);
    assert(p.len() > 0 && p[0] == '*');
    law_glob_star_suffixes(p, url);
    if glob_matches(p, url) {
        let k = choose|k: int| 0 <= k <= url.len() && #[trigger] glob_matches(p.drop_first(), url.subrange(k, url.len() as int));
        law_glob_literal_is_equality(suffix, url.subrange(k, url.len() as int));
    }
    if suffix.len() <= url.len() && url.subrange(url.len() - suffix.len(), url.len() as int) == suffix {
        let k = url.len() - suffix.len();
        law_glob_literal_is_equality(suffix, url.subrange(k, url.len() as int));
        assert(glob_matches(p.drop_first(), url.subrange(k, url.len() as int)));
    }
}

/// Whether one of the blocking rules applies to `url`: a rule applies when it
/// is `*`, occurs in the url, or matches it as a glob pattern.
pub open spec fn rule_applies(rule: Seq<char>, url: Seq<char>) -> bool {
    rule == seq!['*'] || contains(url, rule) || glob_matches(rule, url)
}

/// Whether any of `rules` applies to `url`.
pub open spec fn is_blocked(rules: Seq<Seq<char>>, url: Seq<char>) -> bool {
    exists|i: int| 0 <= i < rules.len() && rule_applies(rules[i], url)
}

/// Whether a request to `url` is blocked by one of `rules` (the blocked-URL
/// patterns of the page).
pub fn url_is_blocked(rules: &Vec<String>, url: &str) -> (r: bool)
    ensures
        r == is_blocked(rules@.map_values(|s: String| s@), url@),
{
    let ghost views = rules@.map_values(|s: String| s@);
    let u = chars_of(url);
    let star = chars_of("*");
    proof {
        reveal_strlit("*");
    }
    let mut i: usize = 0;
    while i < rules.len()
        invariant
            i <= rules.len(),
            u@ == url@,
            star@ == seq!['*'],
            views == rules@.map_values(|s: String| s@),
            forall|j: int| 0 <= j < i ==> !rule_applies(#[trigger] views[j], url@),
        decreases rules.len() - i,
    {
        let rule = chars_of(rules[i].as_str());
        assert(views[i as int] == rule@);
        let applies = {
            let same = rule.len() == 1 && matches_at(&rule, &star, 0);
            proof {
                if rule.len() == 1 {
                    assert(rule@.subrange(0, 1) == rule@);
                }
            }
            same || contains_exec(&u, &rule) || glob_match(rules[i].as_str(), url)
        };
        if applies {
            return true;
        }
        i = i + 1;
    }
    false
}

} // verus!
