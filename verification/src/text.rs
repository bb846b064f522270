//! Character-level string utilities shared by the parsers and code builders.
//!
//! Strings are handled as sequences of Unicode scalar values (`Seq<char>`),
//! which is what `str`'s view is. All search positions below are char
//! positions; every pattern the library searches for is ASCII, so a char
//! position of a match is also the start of the same match in bytes.

use vstd::prelude::*;

verus! {

/// `String::push` appends one char.
pub assume_specification[ String::push ](s: &mut String, ch: char)
    ensures
        final(s)@ == old(s)@.push(ch),
;

// ---------------------------------------------------------------------------
// Conversions
// ---------------------------------------------------------------------------

/// The chars of `s`, in order.
pub fn chars_of(s: &str) -> (r: Vec<char>)
    ensures
        r@ == s@,
{
    broadcast use vstd::string::group_string_axioms;

    let mut r: Vec<char> = Vec::new();
    let mut it = s.chars();
    loop
        invariant
            r@ + vstd::std_specs::iter::IteratorSpec::remaining(&it) == s@,
            vstd::std_specs::iter::IteratorSpec::decrease(&it) is Some,
        ensures
            r@ == s@,
        decreases vstd::std_specs::iter::IteratorSpec::decrease(&it)->0,
    {
        let ghost before = vstd::std_specs::iter::IteratorSpec::remaining(&it);
        match it.next() {
            Some(c) => {
                assert(before == seq![c] + vstd::std_specs::iter::IteratorSpec::remaining(&it));
                assert(r@.push(c) + vstd::std_specs::iter::IteratorSpec::remaining(&it) == r@ + before);
                r.push(c);
            },
            None => {
                assert(before.len() == 0);
                assert(r@ + before == r@);
                break;
            },
        }
    }
    r
}

/// A `String` holding the chars of `s[from..to]`.
pub fn string_of(s: &Vec<char>, from: usize, to: usize) -> (r: String)
    requires
        from <= to <= s.len(),
    ensures
        r@ == s@.subrange(from as int, to as int),
{
    let mut r = String::new();
    let mut i = from;
    while i < to
        invariant
            from <= i <= to <= s.len(),
            r@ == s@.subrange(from as int, i as int),
        decreases to - i,
    {
        assert(s@.subrange(from as int, i + 1) == s@.subrange(from as int, i as int).push(s@[i as int]));
        r.push(s[i]);
        i = i + 1;
    }
    r
}

/// A `String` holding all chars of `s`.
pub fn string_of_all(s: &Vec<char>) -> (r: String)
    ensures
        r@ == s@,
{
    let r = string_of(s, 0, s.len());
    assert(s@.subrange(0, s@.len() as int) == s@);
    r
}

/// Appends the chars of `s` to `out`.
pub fn push_chars(out: &mut String, s: &Vec<char>)
    ensures
        final(out)@ == old(out)@ + s@,
{
    let mut i: usize = 0;
    while i < s.len()
        invariant
            i <= s.len(),
            out@ == old(out)@ + s@.subrange(0, i as int),
        decreases s.len() - i,
    {
        assert(s@.subrange(0, i + 1) == s@.subrange(0, i as int).push(s@[i as int]));
        assert(old(out)@ + s@.subrange(0, i + 1) == (old(out)@ + s@.subrange(0, i as int)).push(s@[i as int]));
        out.push(s[i]);
        i = i + 1;
    }
    assert(s@.subrange(0, s@.len() as int) == s@);
}

/// An owned copy of `s`.
pub fn string_from(s: &str) -> (r: String)
    ensures
        r@ == s@,
{
    s.to_owned()
}

/// Appends `s` to `out`.
pub fn push_str(out: &mut String, s: &str)
    ensures
        final(out)@ == old(out)@ + s@,
{
    out.append(s);
}

// ---------------------------------------------------------------------------
// Searching
// ---------------------------------------------------------------------------

/// `n` occurs in `h` starting at position `i`.
pub open spec fn occurs_at(h: Seq<char>, n: Seq<char>, i: int) -> bool {
    0 <= i && i + n.len() <= h.len() && h.subrange(i, i + n.len()) == n
}

/// The first position `i` with `from <= i` and `i + n.len() <= to` at which
/// `n` occurs in `h`, if there is one: the search of `n` in `h[from..to]`.
pub open spec fn find_in(h: Seq<char>, n: Seq<char>, from: int, to: int) -> Option<int>
    decreases to + 1 - from,
{
    if from < 0 || from + n.len() > to {
        None
    } else if occurs_at(h, n, from) {
        Some(from)
    } else {
        find_in(h, n, from + 1, to)
    }
}

/// `find_in` over the whole rest of `h` from `from` on.
/// The number of bytes `c` takes in UTF-8.
pub open spec fn char_utf8_len(c: char) -> nat {
    if (c as u32) < 0x80 {
        1
    } else if (c as u32) < 0x800 {
        2
    } else if (c as u32) < 0x10000 {
        3
    } else {
        4
    }
}

/// The number of bytes `s` takes in UTF-8.
pub open spec fn utf8_len(s: Seq<char>) -> nat
    decreases s.len(),
{
    if s.len() == 0 {
        0
    } else {
        utf8_len(s.drop_last()) + char_utf8_len(s.last())
    }
}

/// Whether `s[from..to]` takes more than `limit` bytes in UTF-8.
pub fn utf8_len_exceeds(s: &Vec<char>, from: usize, to: usize, limit: u64) -> (r: bool)
    requires
        from <= to <= s.len(),
        limit < u64::MAX - 4,
    ensures
        r == (utf8_len(s@.subrange(from as int, to as int)) > limit),
{
    // `acc` is the length so far, capped at `limit + 1`.
    let mut acc: u64 = 0;
    let mut i = from;
    while i < to
        invariant
            from <= i <= to <= s.len(),
            limit < u64::MAX - 4,
            acc == if utf8_len(s@.subrange(from as int, i as int)) > limit + 1 {
                (limit + 1) as nat
            } else {
                utf8_len(s@.subrange(from as int, i as int))
            },
        decreases to - i,
    {
        let c = s[i];
        let n: u64 = if (c as u32) < 0x80 {
            1
        } else if (c as u32) < 0x800 {
            2
        } else if (c as u32) < 0x10000 {
            3
        } else {
            4
        };
        proof {
            let p = s@.subrange(from as int, i + 1);
            assert(p.drop_last() =~= s@.subrange(from as int, i as int));
            assert(p.last() == c);
        }
        acc = acc + n;
        if acc > limit + 1 {
            acc = limit + 1;
        }
        i = i + 1;
    }
    acc > limit
}

pub open spec fn find_from(h: Seq<char>, n: Seq<char>, from: int) -> Option<int> {
    find_in(h, n, from, h.len() as int)
}

/// What `find_in` returns satisfies its description.
pub proof fn lemma_find_in_props(h: Seq<char>, n: Seq<char>, from: int, to: int)
    requires
        0 <= from,
        to <= h.len(),
    ensures
        match find_in(h, n, from, to) {
            Some(i) => from <= i && i + n.len() <= to && occurs_at(h, n, i)
                && forall|j: int| from <= j < i ==> !occurs_at(h, n, j),
            None => forall|j: int| from <= j && j + n.len() <= to ==> !occurs_at(h, n, j),
        },
    decreases to + 1 - from,
{
    if from < 0 || from + n.len() > to {
    } else if occurs_at(h, n, from) {
    } else {
        lemma_find_in_props(h, n, from + 1, to);
    }
}

/// Whether `n` occurs in `h` at position `i`.
pub fn matches_at(h: &Vec<char>, n: &Vec<char>, i: usize) -> (r: bool)
    ensures
        r == occurs_at(h@, n@, i as int),
{
    if n.len() > h.len() || i > h.len() - n.len() {
        return false;
    }
    let mut k: usize = 0;
    while k < n.len()
        invariant
            k <= n.len(),
            i + n.len() <= h.len(),
            forall|j: int| 0 <= j < k ==> h@[i + j] == n@[j],
        decreases n.len() - k,
    {
        if h[i + k] != n[k] {
            assert(h@.subrange(i as int, i + n.len())[k as int] != n@[k as int]);
            return false;
        }
        k = k + 1;
    }
    assert(h@.subrange(i as int, i + n.len()) =~= n@);
    true
}

/// The search of `n` in `h[from..to]`.
pub fn find_in_exec(h: &Vec<char>, n: &Vec<char>, from: usize, to: usize) -> (r: Option<usize>)
    requires
        from <= to <= h.len(),
    ensures
        match r {
            Some(i) => find_in(h@, n@, from as int, to as int) == Some(i as int),
            None => find_in(h@, n@, from as int, to as int) is None,
        },
{
    if n.len() > to {
        return None;
    }
    if n.len() == 0 {
        assert(h@.subrange(from as int, from as int) =~= n@);
        return Some(from);
    }
    let mut i = from;
    while i <= to - n.len()
        invariant
            from <= i,
            n.len() >= 1,
            n.len() <= to <= h.len(),
            find_in(h@, n@, from as int, to as int) == find_in(h@, n@, i as int, to as int),
        decreases to - i,
    {
        if matches_at(h, n, i) {
            return Some(i);
        }
        i = i + 1;
    }
    None
}

/// The search of `n` in `h` from `from` to the end.
pub fn find_from_exec(h: &Vec<char>, n: &Vec<char>, from: usize) -> (r: Option<usize>)
    requires
        from <= h.len(),
    ensures
        match r {
            Some(i) => find_from(h@, n@, from as int) == Some(i as int),
            None => find_from(h@, n@, from as int) is None,
        },
{
    find_in_exec(h, n, from, h.len())
}

/// The first position at or after `from` holding `c`, if any.
pub open spec fn find_char(h: Seq<char>, c: char, from: int) -> Option<int>
    decreases h.len() - from,
{
    if from < 0 || from >= h.len() {
        None
    } else if h[from] == c {
        Some(from)
    } else {
        find_char(h, c, from + 1)
    }
}

/// What `find_char` returns satisfies its description.
pub proof fn lemma_find_char_props(h: Seq<char>, c: char, from: int)
    requires
        0 <= from,
    ensures
        match find_char(h, c, from) {
            Some(i) => from <= i < h.len() && h[i] == c && forall|j: int| from <= j < i ==> h[j] != c,
            None => forall|j: int| from <= j < h.len() ==> h[j] != c,
        },
    decreases h.len() - from,
{
    if from < h.len() && h[from] != c {
        lemma_find_char_props(h, c, from + 1);
    }
}

/// The first position at or after `from` holding `c`, if any.
pub fn find_char_exec(h: &Vec<char>, c: char, from: usize) -> (r: Option<usize>)
    ensures
        match r {
            Some(i) => find_char(h@, c, from as int) == Some(i as int),
            None => find_char(h@, c, from as int) is None,
        },
{
    let mut i = from;
    while i < h.len()
        invariant
            from <= i,
            find_char(h@, c, from as int) == find_char(h@, c, i as int),
        decreases h.len() - i,
    {
        if h[i] == c {
            return Some(i);
        }
        i = i + 1;
    }
    None
}

/// `n` occurs somewhere in `h`.
pub open spec fn contains(h: Seq<char>, n: Seq<char>) -> bool {
    find_from(h, n, 0) is Some
}

/// Whether `n` occurs somewhere in `h`.
pub fn contains_exec(h: &Vec<char>, n: &Vec<char>) -> (r: bool)
    ensures
        r == contains(h@, n@),
{
    find_from_exec(h, n, 0).is_some()
}

/// `p` is a prefix of `s`.
pub open spec fn starts_with(s: Seq<char>, p: Seq<char>) -> bool {
    p.len() <= s.len() && s.subrange(0, p.len() as int) == p
}

/// Whether `p` is a prefix of `s`.
pub fn starts_with_exec(s: &Vec<char>, p: &Vec<char>) -> (r: bool)
    ensures
        r == starts_with(s@, p@),
{
    matches_at(s, p, 0)
}

/// Whether `s` equals the chars of `lit`.
pub fn eq_str(s: &Vec<char>, lit: &str) -> (r: bool)
    ensures
        r == (s@ == lit@),
{
    let l = chars_of(lit);
    if s.len() != l.len() {
        return false;
    }
    let b = matches_at(s, &l, 0);
    proof {
        if b {
            assert(s@.subrange(0, l@.len() as int) == s@);
        } else {
            assert(s@.subrange(0, s@.len() as int) == s@);
        }
    }
    b
}

// ---------------------------------------------------------------------------
// Whitespace and trimming
// ---------------------------------------------------------------------------

/// Unicode `White_Space`, which is what `char::is_whitespace` tests.
pub open spec fn is_ws(c: char) -> bool {
    let v = c as u32;
    (0x9 <= v && v <= 0xD) || v == 0x20 || v == 0x85 || v == 0xA0 || v == 0x1680
        || (0x2000 <= v && v <= 0x200A) || v == 0x2028 || v == 0x2029 || v == 0x202F
        || v == 0x205F || v == 0x3000
}

/// Whether `c` is Unicode white space.
pub fn is_ws_exec(c: char) -> (r: bool)
    ensures
        r == is_ws(c),
{
    let v = c as u32;
    (0x9 <= v && v <= 0xD) || v == 0x20 || v == 0x85 || v == 0xA0 || v == 0x1680
        || (0x2000 <= v && v <= 0x200A) || v == 0x2028 || v == 0x2029 || v == 0x202F
        || v == 0x205F || v == 0x3000
}

/// Number of leading white-space chars of `s`.
pub open spec fn ws_prefix_len(s: Seq<char>) -> nat
    decreases s.len(),
{
    if s.len() > 0 && is_ws(s[0]) {
        1 + ws_prefix_len(s.drop_first())
    } else {
        0
    }
}

/// Number of trailing white-space chars of `s`.
pub open spec fn ws_suffix_len(s: Seq<char>) -> nat
    decreases s.len(),
{
    if s.len() > 0 && is_ws(s.last()) {
        1 + ws_suffix_len(s.drop_last())
    } else {
        0
    }
}

/// `s` without trailing white space (`str::trim_end`).
pub open spec fn trim_end(s: Seq<char>) -> Seq<char> {
    s.subrange(0, s.len() - ws_suffix_len(s))
}

/// `s` without leading and trailing white space (`str::trim`).
pub open spec fn trim(s: Seq<char>) -> Seq<char> {
    let t = trim_end(s);
    t.subrange(ws_prefix_len(t) as int, t.len() as int)
}

proof fn lemma_ws_suffix_bound(s: Seq<char>)
    ensures
        ws_suffix_len(s) <= s.len(),
    decreases s.len(),
{
    if s.len() > 0 && is_ws(s.last()) {
        lemma_ws_suffix_bound(s.drop_last());
    }
}

proof fn lemma_ws_prefix_bound(s: Seq<char>)
    ensures
        ws_prefix_len(s) <= s.len(),
    decreases s.len(),
{
    if s.len() > 0 && is_ws(s[0]) {
        lemma_ws_prefix_bound(s.drop_first());
    }
}

proof fn lemma_ws_prefix_props(s: Seq<char>)
    ensures
        ws_prefix_len(s) <= s.len(),
        forall|i: int| 0 <= i < ws_prefix_len(s) ==> is_ws(#[trigger] s[i]),
        ws_prefix_len(s) < s.len() ==> !is_ws(s[ws_prefix_len(s) as int]),
    decreases s.len(),
{
    if s.len() > 0 && is_ws(s[0]) {
        lemma_ws_prefix_props(s.drop_first());
        assert forall|i: int| 0 <= i < ws_prefix_len(s) implies is_ws(#[trigger] s[i]) by {
            if i > 0 {
                assert(s[i] == s.drop_first()[i - 1]);
            }
        }
    }
}

proof fn lemma_ws_suffix_props(s: Seq<char>)
    ensures
        ws_suffix_len(s) <= s.len(),
        forall|i: int| s.len() - ws_suffix_len(s) <= i < s.len() ==> is_ws(#[trigger] s[i]),
        ws_suffix_len(s) < s.len() ==> !is_ws(s[s.len() - ws_suffix_len(s) - 1]),
    decreases s.len(),
{
    if s.len() > 0 && is_ws(s.last()) {
        lemma_ws_suffix_props(s.drop_last());
        assert forall|i: int| s.len() - ws_suffix_len(s) <= i < s.len() implies is_ws(#[trigger] s[i]) by {
            if i < s.len() - 1 {
                assert(s[i] == s.drop_last()[i]);
            }
        }
        if ws_suffix_len(s) < s.len() {
            assert(s[s.len() - ws_suffix_len(s) - 1] == s.drop_last()[s.drop_last().len() - ws_suffix_len(s.drop_last()) - 1]);
        }
    }
}

/// Law: trimming removes white space, and only white space, from both
/// ends: the result is a stretch `s[a..b]` of `s`, everything before `a`
/// and from `b` on is white space, and a non-empty result starts and ends
/// with a char that is not.
pub proof fn law_trim(s: Seq<char>)
    ensures
        exists|a: int, b: int| 0 <= a <= b <= s.len() && #[trigger] s.subrange(a, b) == trim(s)
            && (forall|i: int| 0 <= i < a ==> is_ws(#[trigger] s[i]))
            && (forall|i: int| b <= i < s.len() ==> is_ws(#[trigger] s[i])),
        trim(s).len() > 0 ==> !is_ws(trim(s)[0]) && !is_ws(trim(s).last()),
{
    lemma_ws_suffix_props(s);
    let b = s.len() - ws_suffix_len(s);
    let t = trim_end(s);
    lemma_ws_prefix_props(t);
    let a = ws_prefix_len(t) as int;
    assert(s.subrange(a, b) =~= trim(s));
    assert forall|i: int| 0 <= i < a implies is_ws(#[trigger] s[i]) by {
        assert(s[i] == t[i]);
    }
    if trim(s).len() > 0 {
        assert(trim(s)[0] == t[a]);
        assert(trim(s).last() == s[b - 1]);
    }
    assert(0 <= a <= b <= s.len() && s.subrange(a, b) == trim(s));
}

/// The bounds `[a, b)` of `trim(s[from..to])` inside `s`.
pub fn trim_bounds(s: &Vec<char>, from: usize, to: usize) -> (r: (usize, usize))
    requires
        from <= to <= s.len(),
    ensures
        from <= r.0 <= r.1 <= to,
        s@.subrange(r.0 as int, r.1 as int) == trim(s@.subrange(from as int, to as int)),
{
    let ghost w = s@.subrange(from as int, to as int);
    let mut e = to;
    while e > from && is_ws_exec(s[e - 1])
        invariant
            from <= e <= to <= s.len(),
            w == s@.subrange(from as int, to as int),
            ws_suffix_len(w) == (to - e) + ws_suffix_len(s@.subrange(from as int, e as int)),
        decreases e,
    {
        proof {
            let u = s@.subrange(from as int, e as int);
            assert(u.last() == s@[e - 1]);
            assert(u.drop_last() == s@.subrange(from as int, e - 1));
        }
        e = e - 1;
    }
    proof {
        let u = s@.subrange(from as int, e as int);
        if e > from {
            assert(u.last() == s@[e - 1]);
        }
        assert(ws_suffix_len(u) == 0);
        lemma_ws_suffix_bound(w);
        assert(trim_end(w) == u);
    }
    let ghost t = s@.subrange(from as int, e as int);
    let mut b = from;
    while b < e && is_ws_exec(s[b])
        invariant
            from <= b <= e <= to <= s.len(),
            t == s@.subrange(from as int, e as int),
            ws_prefix_len(t) == (b - from) + ws_prefix_len(s@.subrange(b as int, e as int)),
        decreases e - b,
    {
        proof {
            let u = s@.subrange(b as int, e as int);
            assert(u[0] == s@[b as int]);
            assert(u.drop_first() == s@.subrange(b + 1, e as int));
        }
        b = b + 1;
    }
    proof {
        let u = s@.subrange(b as int, e as int);
        if b < e {
            assert(u[0] == s@[b as int]);
        }
        assert(ws_prefix_len(u) == 0);
        assert(t.subrange(ws_prefix_len(t) as int, t.len() as int) == u);
    }
    (b, e)
}

/// `trim(s[from..to])` as a `String`.
pub fn trimmed_string(s: &Vec<char>, from: usize, to: usize) -> (r: String)
    requires
        from <= to <= s.len(),
    ensures
        r@ == trim(s@.subrange(from as int, to as int)),
{
    let (a, b) = trim_bounds(s, from, to);
    string_of(s, a, b)
}

// ---------------------------------------------------------------------------
// Replacement
// ---------------------------------------------------------------------------

/// `str::replace`: every non-overlapping occurrence of `pat`, taken from left
/// to right, replaced by `rep`. `pat` is non-empty.
pub open spec fn replace_all(s: Seq<char>, pat: Seq<char>, rep: Seq<char>) -> Seq<char>
    decreases s.len(),
{
    if pat.len() == 0 || s.len() == 0 {
        s
    } else if starts_with(s, pat) {
        rep + replace_all(s.subrange(pat.len() as int, s.len() as int), pat, rep)
    } else {
        seq![s[0]] + replace_all(s.drop_first(), pat, rep)
    }
}

/// Law: replacing a pattern whose first char never occurs in `s` leaves
/// `s` as it is.
pub proof fn law_replace_all_absent(s: Seq<char>, pat: Seq<char>, rep: Seq<char>)
    requires
        pat.len() > 0,
        forall|i: int| 0 <= i < s.len() ==> s[i] != pat[0],
    ensures
        replace_all(s, pat, rep) == s,
    decreases s.len(),
{
    if s.len() > 0 {
        assert(s.subrange(0, pat.len() as int)[0] == s[0] || pat.len() > s.len());
        assert(!starts_with(s, pat));
        assert forall|i: int| 0 <= i < s.drop_first().len() implies s.drop_first()[i] != pat[0] by {
            assert(s.drop_first()[i] == s[i + 1]);
        }
        law_replace_all_absent(s.drop_first(), pat, rep);
        assert(seq![s[0]] + s.drop_first() =~= s);
    }
}

/// `s` with every occurrence of `pat` replaced by `rep`.
pub fn replace_all_exec(s: &Vec<char>, pat: &Vec<char>, rep: &Vec<char>) -> (r: Vec<char>)
    requires
        pat.len() > 0,
    ensures
        r@ == replace_all(s@, pat@, rep@),
{
    let mut out: Vec<char> = Vec::new();
    let mut i: usize = 0;
    assert(s@.subrange(0, s@.len() as int) == s@);
    assert(out@ + s@ == s@);
    while i < s.len()
        invariant
            i <= s.len(),
            pat.len() > 0,
            out@ + replace_all(s@.subrange(i as int, s.len() as int), pat@, rep@)
                == replace_all(s@, pat@, rep@),
        decreases s.len() - i,
    {
        let ghost rest = s@.subrange(i as int, s.len() as int);
        if matches_at(s, pat, i) {
            proof {
                assert(rest.subrange(0, pat@.len() as int) == s@.subrange(i as int, i + pat@.len()));
                assert(rest.subrange(pat@.len() as int, rest.len() as int)
                    == s@.subrange(i + pat@.len(), s.len() as int));
                assert(out@ + rep@ + replace_all(s@.subrange(i + pat@.len(), s.len() as int), pat@, rep@)
                    == out@ + (rep@ + replace_all(s@.subrange(i + pat@.len(), s.len() as int), pat@, rep@)));
            }
            let mut k: usize = 0;
            let ghost out0 = out@;
            while k < rep.len()
                invariant
                    k <= rep.len(),
                    out@ == out0 + rep@.subrange(0, k as int),
                decreases rep.len() - k,
            {
                assert(rep@.subrange(0, k + 1) == rep@.subrange(0, k as int).push(rep@[k as int]));
                out.push(rep[k]);
                k = k + 1;
            }
            assert(rep@.subrange(0, rep@.len() as int) == rep@);
            i = i + pat.len();
        } else {
            proof {
                if pat@.len() <= rest.len() {
                    assert(rest.subrange(0, pat@.len() as int) == s@.subrange(i as int, i + pat@.len()));
                }
                assert(rest.drop_first() == s@.subrange(i + 1, s.len() as int));
                assert(rest[0] == s@[i as int]);
                assert(out@.push(s@[i as int]) + replace_all(s@.subrange(i + 1, s.len() as int), pat@, rep@)
                    == out@ + (seq![s@[i as int]] + replace_all(s@.subrange(i + 1, s.len() as int), pat@, rep@)));
            }
            out.push(s[i]);
            i = i + 1;
        }
    }
    proof {
        assert(s@.subrange(i as int, s.len() as int).len() == 0);
        assert(out@ + seq![] == out@);
    }
    out
}

// ---------------------------------------------------------------------------
// Case mapping
// ---------------------------------------------------------------------------

/// `char::to_ascii_uppercase`.
pub open spec fn ascii_upper(c: char) -> char {
    if 'a' <= c && c <= 'z' {
        ((c as u32) - 32) as char
    } else {
        c
    }
}

/// `char::to_ascii_lowercase`.
pub open spec fn ascii_lower(c: char) -> char {
    if 'A' <= c && c <= 'Z' {
        ((c as u32) + 32) as char
    } else {
        c
    }
}

/// `str::to_ascii_uppercase`.
pub fn to_ascii_upper(s: &Vec<char>) -> (r: Vec<char>)
    ensures
        r@ == s@.map_values(|c: char| ascii_upper(c)),
{
    let mut r: Vec<char> = Vec::new();
    let mut i: usize = 0;
    while i < s.len()
        invariant
            i <= s.len(),
            r@ == s@.subrange(0, i as int).map_values(|c: char| ascii_upper(c)),
        decreases s.len() - i,
    {
        let c = s[i];
        let u = if 'a' <= c && c <= 'z' {
            ((c as u32) - 32) as u8 as char
        } else {
            c
        };
        assert(s@.subrange(0, i + 1).map_values(|c: char| ascii_upper(c))
            == s@.subrange(0, i as int).map_values(|c: char| ascii_upper(c)).push(ascii_upper(c)));
        r.push(u);
        i = i + 1;
    }
    assert(s@.subrange(0, s@.len() as int) == s@);
    r
}

/// Whether `a` and `b` are equal ignoring ASCII case (`str::eq_ignore_ascii_case`).
pub open spec fn eq_ignore_ascii_case(a: Seq<char>, b: Seq<char>) -> bool {
    a.len() == b.len() && forall|i: int| 0 <= i < a.len() ==> ascii_lower(a[i]) == ascii_lower(b[i])
}

/// Whether `a` and `b` are equal ignoring ASCII case.
pub fn eq_ignore_ascii_case_exec(a: &Vec<char>, b: &Vec<char>) -> (r: bool)
    ensures
        r == eq_ignore_ascii_case(a@, b@),
{
    if a.len() != b.len() {
        return false;
    }
    let mut i: usize = 0;
    while i < a.len()
        invariant
            i <= a.len() == b.len(),
            forall|j: int| 0 <= j < i ==> ascii_lower(a@[j]) == ascii_lower(b@[j]),
        decreases a.len() - i,
    {
        let x = a[i];
        let y = b[i];
        let lx = if 'A' <= x && x <= 'Z' { ((x as u32) + 32) as u8 as char } else { x };
        let ly = if 'A' <= y && y <= 'Z' { ((y as u32) + 32) as u8 as char } else { y };
        if lx != ly {
            return false;
        }
        i = i + 1;
    }
    true
}

// ---------------------------------------------------------------------------
// Decimal numbers
// ---------------------------------------------------------------------------

/// The decimal digit char of `d` (`0 <= d < 10`).
pub open spec fn digit_char(d: nat) -> char {
    ((d + 48) as u32) as char
}

/// Decimal notation of `n`, as `u64`'s `Display` writes it.
pub open spec fn dec(n: nat) -> Seq<char>
    decreases n,
{
    if n < 10 {
        seq![digit_char(n)]
    } else {
        dec(n / 10).push(digit_char(n % 10))
    }
}

proof fn lemma_dec_nonempty(n: nat)
    ensures
        dec(n).len() > 0,
    decreases n,
{
    if n >= 10 {
        lemma_dec_nonempty(n / 10);
    }
}

/// Distinct numbers have distinct decimal notations.
pub proof fn lemma_dec_injective(a: nat, b: nat)
    requires
        dec(a) == dec(b),
    ensures
        a == b,
    decreases a,
{
    if a < 10 && b < 10 {
        assert(dec(a)[0] == digit_char(a));
        assert(dec(b)[0] == digit_char(b));
    } else if a < 10 {
        lemma_dec_nonempty(b / 10);
        assert(dec(b).len() >= 2);
    } else if b < 10 {
        lemma_dec_nonempty(a / 10);
        assert(dec(a).len() >= 2);
    } else {
        assert(dec(a).drop_last() == dec(a / 10));
        assert(dec(b).drop_last() == dec(b / 10));
        assert(dec(a).last() == digit_char(a % 10));
        assert(dec(b).last() == digit_char(b % 10));
        lemma_dec_injective(a / 10, b / 10);
    }
}

/// Decimal notation of a signed number, as `i64`'s `Display` writes it.
pub open spec fn dec_signed(n: int) -> Seq<char> {
    if n < 0 {
        seq!['-'] + dec((-n) as nat)
    } else {
        dec(n as nat)
    }
}

/// Law: the decimal notation of `n` is made of the digits `0`..`9`, has no
/// leading zero (but for `0` itself), and reads back as `n`: parsing it
/// gives `n` wherever `n` fits.
pub proof fn law_dec_reads_back(n: nat, max: nat)
    ensures
        dec(n).len() >= 1,
        forall|i: int| 0 <= i < dec(n).len() ==> '0' <= #[trigger] dec(n)[i] <= '9',
        dec(n).len() > 1 ==> dec(n)[0] != '0',
        digits_value(dec(n)) == n,
        n <= max ==> parse_unsigned(dec(n), max) == Some(n),
    decreases n,
{
    let d = n % 10;
    assert(digit_char(d) as u32 == d + 48);
    if n >= 10 {
        law_dec_reads_back(n / 10, max);
        let p = dec(n / 10);
        assert(dec(n) == p.push(digit_char(d)));
        assert(dec(n).drop_last() =~= p);
        assert(dec(n).last() == digit_char(d));
        assert forall|i: int| 0 <= i < dec(n).len() implies '0' <= #[trigger] dec(n)[i] <= '9' by {
            if i < p.len() {
                assert(dec(n)[i] == p[i]);
            }
        }
        if n / 10 < 10 {
            assert(p == seq![digit_char(n / 10)]);
            assert(digit_char(n / 10) as u32 == n / 10 + 48);
            assert(p[0] != '0');
        } else {
            lemma_dec_nonempty((n / 10) / 10);
            assert(p.len() > 1);
        }
        assert(dec(n)[0] == p[0]);
        assert(digits_value(dec(n)) == digits_value(p) * 10 + ((dec(n).last() as u32) - 48) as nat);
        assert(((dec(n).last() as u32) - 48) as nat == d);
        assert(n == (n / 10) * 10 + d);
    } else {
        assert(dec(n).drop_last() =~= Seq::<char>::empty());
        assert(dec(n).last() == digit_char(n));
        assert(digits_value(dec(n)) == digits_value(dec(n).drop_last()) * 10 + ((dec(n).last() as u32) - 48) as nat);
        assert(digits_value(Seq::<char>::empty()) == 0);
    }
    assert(dec(n)[0] != '+');
    assert(all_digits(dec(n))) by {
        assert forall|i: int| 0 <= i < dec(n).len() implies is_digit(#[trigger] dec(n)[i]) by {
            assert('0' <= dec(n)[i] <= '9');
        }
    }
}

/// Appends the decimal notation of `n` to `out`.
pub fn push_dec(out: &mut String, n: u64)
    ensures
        final(out)@ == old(out)@ + dec(n as nat),
{
    let mut digits: Vec<char> = Vec::new();
    let mut m = n;
    let ghost mut done: Seq<char> = Seq::empty();
    // digits holds the lowest digits of n, least significant first
    while m >= 10
        invariant
            dec(n as nat) == dec(m as nat) + digits@.reverse(),
        decreases m,
    {
        let d = m % 10;
        proof {
            assert(dec(m as nat) == dec((m / 10) as nat).push(digit_char((m % 10) as nat)));
            assert(digits@.push(digit_char(d as nat)).reverse()
                == seq![digit_char(d as nat)] + digits@.reverse());
            assert(dec((m / 10) as nat).push(digit_char((m % 10) as nat)) + digits@.reverse()
                == dec((m / 10) as nat) + (seq![digit_char(d as nat)] + digits@.reverse()));
        }
        digits.push(((d + 48) as u8) as char);
        m = m / 10;
    }
    proof {
        assert(digits@.push(digit_char(m as nat)).reverse() == seq![digit_char(m as nat)] + digits@.reverse());
    }
    digits.push(((m + 48) as u8) as char);
    let ghost all = digits@.reverse();
    assert(dec(n as nat) == all);
    let mut i = digits.len();
    while i > 0
        invariant
            i <= digits.len(),
            all == digits@.reverse(),
            out@ == old(out)@ + all.subrange(0, (digits.len() - i) as int),
        decreases i,
    {
        proof {
            let k = (digits.len() - i) as int;
            assert(all[k] == digits@[i - 1]);
            assert(all.subrange(0, k + 1) == all.subrange(0, k).push(all[k]));
            assert(old(out)@ + all.subrange(0, k + 1) == (old(out)@ + all.subrange(0, k)).push(all[k]));
        }
        out.push(digits[i - 1]);
        i = i - 1;
    }
    assert(all.subrange(0, all.len() as int) == all);
}

/// Appends the decimal notation of the signed `n` to `out`.
pub fn push_dec_signed(out: &mut String, n: i64)
    ensures
        final(out)@ == old(out)@ + dec_signed(n as int),
{
    if n < 0 {
        out.push('-');
        let m: u64 = if n == i64::MIN {
            9223372036854775808u64
        } else {
            (-n) as u64
        };
        push_dec(out, m);
        assert(old(out)@.push('-') + dec(m as nat) == old(out)@ + (seq!['-'] + dec(m as nat)));
    } else {
        push_dec(out, n as u64);
    }
}

// ---------------------------------------------------------------------------
// Parsing unsigned numbers
// ---------------------------------------------------------------------------

/// An ASCII decimal digit.
pub open spec fn is_digit(c: char) -> bool {
    '0' <= c && c <= '9'
}

/// Every char of `s` is an ASCII digit.
pub open spec fn all_digits(s: Seq<char>) -> bool {
    forall|i: int| 0 <= i < s.len() ==> is_digit(#[trigger] s[i])
}

/// The value of a run of decimal digits.
pub open spec fn digits_value(s: Seq<char>) -> nat
    decreases s.len(),
{
    if s.len() == 0 {
        0
    } else {
        digits_value(s.drop_last()) * 10 + ((s.last() as u32) - 48) as nat
    }
}

/// What `str::parse` gives for an unsigned integer type whose largest value is
/// `max`: an optional `+` then at least one ASCII digit, of value at most `max`.
pub open spec fn parse_unsigned(s: Seq<char>, max: nat) -> Option<nat> {
    let d = if s.len() > 0 && s[0] == '+' {
        s.drop_first()
    } else {
        s
    };
    if d.len() > 0 && all_digits(d) && digits_value(d) <= max {
        Some(digits_value(d))
    } else {
        None
    }
}

proof fn lemma_digits_prefix_le(s: Seq<char>, i: int)
    requires
        0 <= i <= s.len(),
        all_digits(s),
    ensures
        digits_value(s.subrange(0, i)) <= digits_value(s),
    decreases s.len() - i,
{
    if i < s.len() {
        let t = s.drop_last();
        assert(all_digits(t)) by {
            assert forall|k: int| 0 <= k < t.len() implies is_digit(#[trigger] t[k]) by {
                assert(is_digit(s[k]));
            }
        }
        assert(is_digit(s[s.len() - 1]));
        lemma_digits_prefix_le(t, i);
        assert(t.subrange(0, i) == s.subrange(0, i));
    } else {
        assert(s.subrange(0, i) == s);
    }
}

/// `str::parse` of `s[from..to]` into an unsigned integer of largest value
/// `max`.
pub fn parse_unsigned_exec(s: &Vec<char>, from: usize, to: usize, max: u64) -> (r: Option<u64>)
    requires
        from <= to <= s.len(),
    ensures
        match r {
            Some(v) => parse_unsigned(s@.subrange(from as int, to as int), max as nat) == Some(v as nat),
            None => parse_unsigned(s@.subrange(from as int, to as int), max as nat) is None,
        },
{
    let ghost w = s@.subrange(from as int, to as int);
    let start = if from < to && s[from] == '+' { from + 1 } else { from };
    let ghost d = s@.subrange(start as int, to as int);
    assert(d == (if w.len() > 0 && w[0] == '+' { w.drop_first() } else { w }));
    if start >= to {
        return None;
    }
    let mut acc: u64 = 0;
    let mut i = start;
    while i < to
        invariant
            from <= start <= i <= to <= s.len(),
            d == s@.subrange(start as int, to as int),
            w == s@.subrange(from as int, to as int),
            d == (if w.len() > 0 && w[0] == '+' { w.drop_first() } else { w }),
            acc <= max,
            acc as nat == digits_value(s@.subrange(start as int, i as int)),
            all_digits(s@.subrange(start as int, i as int)),
        decreases to - i,
    {
        let c = s[i];
        let ghost pre = s@.subrange(start as int, i + 1);
        assert(pre.drop_last() == s@.subrange(start as int, i as int));
        assert(pre.last() == c);
        if !('0' <= c && c <= '9') {
            assert(!is_digit(d[i - start]));
            return None;
        }
        let dv = (c as u32 - 48) as u64;
        assert(all_digits(pre)) by {
            assert forall|k: int| 0 <= k < pre.len() implies is_digit(#[trigger] pre[k]) by {
                if k < pre.len() - 1 {
                    assert(pre[k] == s@.subrange(start as int, i as int)[k]);
                }
            }
        }
        assert(digits_value(pre) == acc * 10 + dv);
        let mut overflowed = false;
        let mut next: u64 = 0;
        match acc.checked_mul(10) {
            Some(m) => match m.checked_add(dv) {
                Some(n) => {
                    next = n;
                },
                None => {
                    overflowed = true;
                },
            },
            None => {
                overflowed = true;
            },
        }
        assert(!overflowed ==> next == acc * 10 + dv);
        if overflowed || next > max {
            proof {
                assert(digits_value(pre) > max);
                assert(d.subrange(0, (i + 1 - start) as int) == pre);
                if all_digits(d) {
                    lemma_digits_prefix_le(d, (i + 1 - start) as int);
                }
            }
            return None;
        }
        acc = next;
        i = i + 1;
    }
    Some(acc)
}


/// Whether `a` and `b` hold the same chars.
pub fn same_chars(a: &Vec<char>, b: &Vec<char>) -> (r: bool)
    ensures
        r == (a@ == b@),
{
    if a.len() != b.len() {
        return false;
    }
    let mut i: usize = 0;
    while i < a.len()
        invariant
            a.len() == b.len(),
            i <= a.len(),
            forall|k: int| 0 <= k < i ==> a@[k] == b@[k],
        decreases a.len() - i,
    {
        if a[i] != b[i] {
            return false;
        }
        i = i + 1;
    }
    assert(a@ =~= b@);
    true
}

/// Whether `s` and `t` hold the same text.
pub fn same_text(s: &str, t: &str) -> (r: bool)
    ensures
        r == (s@ == t@),
{
    let a = chars_of(s);
    let b = chars_of(t);
    same_chars(&a, &b)
}

/// `str::to_lowercase` of `s`: the Unicode lowercase mapping, char by char,
/// with the context rules of the standard library.
pub uninterp spec fn lowercase_of(s: Seq<char>) -> Seq<char>;

/// `str::to_lowercase`.
#[verifier::external_body]
pub(crate) fn to_lowercase(s: &str) -> (r: String)
    ensures
        r@ == lowercase_of(s@),
{
    s.to_lowercase()
}

// ---------------------------------------------------------------------------
// JSON strings
// ---------------------------------------------------------------------------

/// The lowercase hex digit of `d` (`0 <= d < 16`).
pub open spec fn hex_lower(d: nat) -> char {
    if d < 10 {
        digit_char(d)
    } else {
        ((d - 10 + 97) as u32) as char
    }
}

/// How a JSON string literal writes one char: `"`, `\` and the control chars
/// below U+0020 are escaped, `\b \t \n \f \r` by name and the others as
/// `\u00xx` with lowercase hex digits; every other char stands as it is.
pub open spec fn json_escape_char(c: char) -> Seq<char> {
    let v = c as u32;
    if c == '"' {
        seq!['\\', '"']
    } else if c == '\\' {
        seq!['\\', '\\']
    } else if v == 8 {
        seq!['\\', 'b']
    } else if v == 9 {
        seq!['\\', 't']
    } else if v == 10 {
        seq!['\\', 'n']
    } else if v == 12 {
        seq!['\\', 'f']
    } else if v == 13 {
        seq!['\\', 'r']
    } else if v < 0x20 {
        seq!['\\', 'u', '0', '0', hex_lower((v / 16) as nat), hex_lower((v % 16) as nat)]
    } else {
        seq![c]
    }
}

/// The escaped contents of a JSON string literal for `s`.
pub open spec fn json_escape(s: Seq<char>) -> Seq<char>
    decreases s.len(),
{
    if s.len() == 0 {
        Seq::empty()
    } else {
        json_escape(s.drop_last()) + json_escape_char(s.last())
    }
}

/// The JSON string literal for `s`, as `serde_json` writes it.
pub open spec fn json_quote(s: Seq<char>) -> Seq<char> {
    seq!['"'] + json_escape(s) + seq!['"']
}

/// Law: how JSON escapes one char. A quote and a backslash get a
/// backslash in front; backspace, tab, newline, form feed and carriage
/// return become `\b`, `\t`, `\n`, `\f` and `\r`; any other char below
/// U+0020 becomes `\u00XX`; every other char stands for itself. So an
/// escaped text never holds a bare quote or a control char.
pub proof fn law_json_escape_char(c: char)
    ensures
        c == '"' ==> json_escape_char(c) == seq!['\\', '"'],
        c == '\\' ==> json_escape_char(c) == seq!['\\', '\\'],
        c == '\n' ==> json_escape_char(c) == seq!['\\', 'n'],
        c == '\t' ==> json_escape_char(c) == seq!['\\', 't'],
        c == '\r' ==> json_escape_char(c) == seq!['\\', 'r'],
        (c as u32) < 0x20 ==> json_escape_char(c).len() >= 2 && json_escape_char(c)[0] == '\\',
        (c as u32) >= 0x20 && c != '"' && c != '\\' ==> json_escape_char(c) == seq![c],
        forall|i: int| 0 <= i < json_escape_char(c).len() ==> (#[trigger] json_escape_char(c)[i] as u32) >= 0x20,
        forall|i: int| 0 < i < json_escape_char(c).len() && #[trigger] json_escape_char(c)[i] == '"' ==> json_escape_char(c)[i - 1] == '\\',
        json_escape_char(c)[0] != '"',
{
    let v = c as u32;
    if v < 0x20 && v != 8 && v != 9 && v != 10 && v != 12 && v != 13 {
        assert(v / 16 < 2);
        assert(v % 16 < 16);
    }
}

/// Appends the escape of one char.
fn push_json_escaped_char(out: &mut String, c: char)
    ensures
        final(out)@ == old(out)@ + json_escape_char(c),
{
    let v = c as u32;
    if c == '"' {
        out.push('\\');
        out.push('"');
    } else if c == '\\' {
        out.push('\\');
        out.push('\\');
    } else if v == 8 {
        out.push('\\');
        out.push('b');
    } else if v == 9 {
        out.push('\\');
        out.push('t');
    } else if v == 10 {
        out.push('\\');
        out.push('n');
    } else if v == 12 {
        out.push('\\');
        out.push('f');
    } else if v == 13 {
        out.push('\\');
        out.push('r');
    } else if v < 0x20 {
        let hi = (v / 16) as u8;
        let lo = (v % 16) as u8;
        let hc = (hi + 48) as char;
        let lc = if lo < 10 { (lo + 48) as char } else { (lo - 10 + 97) as char };
        out.push('\\');
        out.push('u');
        out.push('0');
        out.push('0');
        out.push(hc);
        out.push(lc);
    } else {
        out.push(c);
    }
    assert(final(out)@ == old(out)@ + json_escape_char(c));
}

/// Appends the JSON string literal for `s` to `out`.
pub fn push_json_str(out: &mut String, s: &Vec<char>)
    ensures
        final(out)@ == old(out)@ + json_quote(s@),
{
    out.push('"');
    let mut i: usize = 0;
    while i < s.len()
        invariant
            i <= s.len(),
            out@ == old(out)@ + seq!['"'] + json_escape(s@.subrange(0, i as int)),
        decreases s.len() - i,
    {
        proof {
            let p = s@.subrange(0, i + 1);
            assert(p.drop_last() == s@.subrange(0, i as int));
            assert(p.last() == s@[i as int]);
        }
        push_json_escaped_char(out, s[i]);
        i = i + 1;
    }
    assert(s@.subrange(0, s@.len() as int) == s@);
    out.push('"');
}

/// Appends the JSON string literal for `s` to `out`.
pub fn push_json_string(out: &mut String, s: &str)
    ensures
        final(out)@ == old(out)@ + json_quote(s@),
{
    let v = chars_of(s);
    push_json_str(out, &v);
}

/// The JSON string literal for `s`.
pub fn json_string(s: &str) -> (r: String)
    ensures
        r@ == json_quote(s@),
{
    let mut out = String::new();
    push_json_string(&mut out, s);
    out
}

} // verus!
