//! Maps from text to text, kept as entries with names in ascending order
//! (by code point, as `serde_json` orders the keys of an object), each name
//! once, a later value for a name replacing the earlier one.

use vstd::prelude::*;
use crate::text::{chars_of, json_quote, push_json_string};

verus! {

/// The length of the longest common prefix of `a` and `b`, counted from `i`.
pub open spec fn common_from(a: Seq<char>, b: Seq<char>, i: nat) -> nat
    decreases a.len() - i,
{
    if i < a.len() && i < b.len() && a[i as int] == b[i as int] {
        common_from(a, b, i + 1)
    } else {
        i
    }
}

/// The length of the longest common prefix of `a` and `b`.
pub open spec fn common_len(a: Seq<char>, b: Seq<char>) -> nat {
    common_from(a, b, 0)
}

/// `a` comes before `b` in code-point order: `a` is a proper prefix of `b`,
/// or at the first place where they differ `a` has the smaller char.
pub open spec fn text_lt(a: Seq<char>, b: Seq<char>) -> bool {
    let k = common_len(a, b);
    (k == a.len() && k < b.len()) || (k < a.len() && k < b.len() && (a[k as int] as u32) < (b[k as int] as u32))
}

proof fn lemma_common_from(a: Seq<char>, b: Seq<char>, i: nat)
    requires
        i <= a.len(),
        i <= b.len(),
    ensures
        i <= common_from(a, b, i) <= a.len(),
        common_from(a, b, i) <= b.len(),
        forall|j: int| i <= j < common_from(a, b, i) ==> a[j] == b[j],
        common_from(a, b, i) < a.len() && common_from(a, b, i) < b.len() ==> a[common_from(a, b, i) as int]
            != b[common_from(a, b, i) as int],
    decreases a.len() - i,
{
    if i < a.len() && i < b.len() && a[i as int] == b[i as int] {
        lemma_common_from(a, b, i + 1);
    }
}

/// The common prefix: equal below it, and different right at it unless one
/// text ends there.
pub proof fn lemma_common_len(a: Seq<char>, b: Seq<char>)
    ensures
        common_len(a, b) <= a.len(),
        common_len(a, b) <= b.len(),
        forall|j: int| 0 <= j < common_len(a, b) ==> a[j] == b[j],
        common_len(a, b) < a.len() && common_len(a, b) < b.len() ==> a[common_len(a, b) as int]
            != b[common_len(a, b) as int],
{
    lemma_common_from(a, b, 0);
}

/// Any `k` with those properties is the common prefix length.
proof fn lemma_common_len_unique(a: Seq<char>, b: Seq<char>, k: nat)
    requires
        k <= a.len(),
        k <= b.len(),
        forall|j: int| 0 <= j < k ==> a[j] == b[j],
        k < a.len() && k < b.len() ==> a[k as int] != b[k as int],
    ensures
        common_len(a, b) == k,
{
    lemma_common_len(a, b);
    let c = common_len(a, b);
    if c < k {
        assert(a[c as int] == b[c as int]);
    } else if c > k {
        assert(a[k as int] == b[k as int]);
    }
}

/// Distinct chars have distinct codes.
proof fn lemma_char_code_injective(c: char, d: char)
    ensures
        c != d ==> (c as u32) != (d as u32),
{
}

/// The order is irreflexive.
pub proof fn lemma_text_lt_irreflexive(a: Seq<char>)
    ensures
        !text_lt(a, a),
{
    lemma_common_len(a, a);
}

/// The order is total on distinct texts, and asymmetric.
pub proof fn lemma_text_lt_total(a: Seq<char>, b: Seq<char>)
    ensures
        a != b ==> text_lt(a, b) || text_lt(b, a),
        !(text_lt(a, b) && text_lt(b, a)),
{
    lemma_common_len(a, b);
    lemma_common_len(b, a);
    let k = common_len(a, b);
    assert forall|j: int| 0 <= j < k implies b[j] == a[j] by {}
    lemma_common_len_unique(b, a, k);
    if k == a.len() && k == b.len() {
        assert(a =~= b);
    }
    if k < a.len() && k < b.len() {
        lemma_char_code_injective(a[k as int], b[k as int]);
    }
}

/// The order is transitive.
pub proof fn lemma_text_lt_transitive(a: Seq<char>, b: Seq<char>, c: Seq<char>)
    requires
        text_lt(a, b),
        text_lt(b, c),
    ensures
        text_lt(a, c),
{
    lemma_common_len(a, b);
    lemma_common_len(b, c);
    lemma_common_len(a, c);
    let p = common_len(a, b);
    let q = common_len(b, c);
    let m = if p < q { p } else { q };
    if p < q {
        assert forall|j: int| 0 <= j < p implies a[j] == c[j] by {}
        if p < a.len() {
            assert(c[p as int] == b[p as int]);
            lemma_common_len_unique(a, c, p);
        } else {
            lemma_common_len_unique(a, c, p);
        }
    } else if q < p {
        assert forall|j: int| 0 <= j < q implies a[j] == c[j] by {}
        assert(a[q as int] == b[q as int]);
        lemma_common_len_unique(a, c, q);
    } else {
        assert forall|j: int| 0 <= j < p implies a[j] == c[j] by {}
        if p < a.len() && p < c.len() {
            assert((a[p as int] as u32) < (c[p as int] as u32));
        }
        lemma_common_len_unique(a, c, p);
    }
    assert(m == m);
}

/// Whether `a` comes before `b`.
pub fn text_less(a: &Vec<char>, b: &Vec<char>) -> (r: bool)
    ensures
        r == text_lt(a@, b@),
{
    let mut i: usize = 0;
    while i < a.len() && i < b.len() && a[i] == b[i]
        invariant
            i <= a.len(),
            i <= b.len(),
            forall|j: int| 0 <= j < i ==> a@[j] == b@[j],
        decreases a.len() - i,
    {
        i = i + 1;
    }
    proof {
        lemma_common_len_unique(a@, b@, i as nat);
    }
    if i == a.len() {
        i < b.len()
    } else if i == b.len() {
        false
    } else {
        (a[i] as u32) < (b[i] as u32)
    }
}

/// The names of `s` strictly ascend.
pub open spec fn names_ascend(s: Seq<(Seq<char>, Seq<char>)>) -> bool {
    forall|i: int, j: int| 0 <= i < j < s.len() ==> text_lt(#[trigger] s[i].0, #[trigger] s[j].0)
}

/// `s` with `(k, v)` put in: replacing the value of the entry named `k`, or
/// as a new entry before the first name that comes after `k`.
pub open spec fn put_entry(s: Seq<(Seq<char>, Seq<char>)>, k: Seq<char>, v: Seq<char>) -> Seq<(Seq<char>, Seq<char>)>
    decreases s.len(),
{
    if s.len() == 0 {
        seq![(k, v)]
    } else if s[0].0 == k {
        seq![(k, v)] + s.drop_first()
    } else if text_lt(k, s[0].0) {
        seq![(k, v)] + s
    } else {
        seq![s[0]] + put_entry(s.drop_first(), k, v)
    }
}

/// The entries after putting each pair of `pairs` in, in order, from `s`.
pub open spec fn put_all(s: Seq<(Seq<char>, Seq<char>)>, pairs: Seq<(Seq<char>, Seq<char>)>) -> Seq<(Seq<char>, Seq<char>)>
    decreases pairs.len(),
{
    if pairs.len() == 0 {
        s
    } else {
        put_entry(put_all(s, pairs.drop_last()), pairs.last().0, pairs.last().1)
    }
}

/// The value of the entry named `k`, if any.
pub open spec fn entry_value(s: Seq<(Seq<char>, Seq<char>)>, k: Seq<char>) -> Option<Seq<char>>
    decreases s.len(),
{
    if s.len() == 0 {
        None
    } else if s[0].0 == k {
        Some(s[0].1)
    } else {
        entry_value(s.drop_first(), k)
    }
}

/// Where `k` is put into ascending entries: the first position whose name
/// does not come before `k`.
proof fn lemma_put_entry_split(s: Seq<(Seq<char>, Seq<char>)>, k: Seq<char>, v: Seq<char>, i: int)
    requires
        names_ascend(s),
        0 <= i <= s.len(),
        forall|j: int| 0 <= j < i ==> text_lt(#[trigger] s[j].0, k),
        i < s.len() ==> !text_lt(s[i].0, k),
    ensures
        put_entry(s, k, v) == if i < s.len() && s[i].0 == k {
            s.subrange(0, i).push((k, v)) + s.subrange(i + 1, s.len() as int)
        } else {
            s.subrange(0, i).push((k, v)) + s.subrange(i, s.len() as int)
        },
    decreases s.len(),
{
    if s.len() == 0 {
        assert(s.subrange(0, 0).push((k, v)) + s.subrange(0, 0) =~= seq![(k, v)]);
    } else if i == 0 {
        if s[0].0 == k {
            assert(s.subrange(0, 0).push((k, v)) + s.subrange(1, s.len() as int) =~= seq![(k, v)] + s.drop_first());
        } else {
            lemma_text_lt_total(s[0].0, k);
            assert(s.subrange(0, 0).push((k, v)) + s.subrange(0, s.len() as int) =~= seq![(k, v)] + s);
        }
    } else {
        let t = s.drop_first();
        assert(text_lt(s[0].0, k));
        lemma_text_lt_total(s[0].0, k);
        assert(s[0].0 != k) by {
            lemma_text_lt_irreflexive(k);
        }
        assert forall|a: int, b: int| 0 <= a < b < t.len() implies text_lt(#[trigger] t[a].0, #[trigger] t[b].0) by {
            assert(t[a] == s[a + 1]);
            assert(t[b] == s[b + 1]);
        }
        assert forall|j: int| 0 <= j < i - 1 implies text_lt(#[trigger] t[j].0, k) by {
            assert(t[j] == s[j + 1]);
        }
        lemma_put_entry_split(t, k, v, i - 1);
        if i < s.len() && s[i].0 == k {
            assert(seq![s[0]] + (t.subrange(0, i - 1).push((k, v)) + t.subrange(i, t.len() as int))
                =~= s.subrange(0, i).push((k, v)) + s.subrange(i + 1, s.len() as int));
        } else {
            assert(seq![s[0]] + (t.subrange(0, i - 1).push((k, v)) + t.subrange(i - 1, t.len() as int))
                =~= s.subrange(0, i).push((k, v)) + s.subrange(i, s.len() as int));
        }
    }
}

/// Putting an entry in keeps the names ascending; afterwards `k` holds `v`
/// and every other name holds what it held before.
pub proof fn lemma_put_entry(s: Seq<(Seq<char>, Seq<char>)>, k: Seq<char>, v: Seq<char>)
    requires
        names_ascend(s),
    ensures
        names_ascend(put_entry(s, k, v)),
        entry_value(put_entry(s, k, v), k) == Some(v),
        forall|other: Seq<char>| other != k ==> #[trigger] entry_value(put_entry(s, k, v), other) == entry_value(s, other),
    decreases s.len(),
{
    let r = put_entry(s, k, v);
    if s.len() == 0 {
        assert forall|other: Seq<char>| other != k implies #[trigger] entry_value(r, other) == entry_value(s, other) by {
            assert(r =~= seq![(k, v)]);
            assert(r[0].0 == k);
            assert(r.drop_first().len() == 0);
            assert(entry_value(r.drop_first(), other) is None);
        }
    } else if s[0].0 == k {
        let t = s.drop_first();
        assert forall|a: int, b: int| 0 <= a < b < r.len() implies text_lt(#[trigger] r[a].0, #[trigger] r[b].0) by {
            if a == 0 {
                assert(s[b].0 == r[b].0);
                assert(text_lt(s[0].0, s[b].0));
            } else {
                assert(r[a] == s[a]);
                assert(r[b] == s[b]);
            }
        }
        assert(r.drop_first() =~= t);
        assert forall|other: Seq<char>| other != k implies #[trigger] entry_value(r, other) == entry_value(s, other) by {
            assert(r.drop_first() =~= t);
        }
    } else if text_lt(k, s[0].0) {
        assert forall|a: int, b: int| 0 <= a < b < r.len() implies text_lt(#[trigger] r[a].0, #[trigger] r[b].0) by {
            if a == 0 {
                assert(r[b] == s[b - 1]);
                if b - 1 > 0 {
                    assert(text_lt(s[0].0, s[b - 1].0));
                    lemma_text_lt_transitive(k, s[0].0, s[b - 1].0);
                }
            } else {
                assert(r[a] == s[a - 1]);
                assert(r[b] == s[b - 1]);
            }
        }
        assert forall|other: Seq<char>| other != k implies #[trigger] entry_value(r, other) == entry_value(s, other) by {
            assert(r.drop_first() =~= s);
        }
    } else {
        let t = s.drop_first();
        assert forall|a: int, b: int| 0 <= a < b < t.len() implies text_lt(#[trigger] t[a].0, #[trigger] t[b].0) by {
            assert(t[a] == s[a + 1]);
            assert(t[b] == s[b + 1]);
        }
        lemma_put_entry(t, k, v);
        let rt = put_entry(t, k, v);
        assert(r =~= seq![s[0]] + rt);
        lemma_text_lt_total(k, s[0].0);
        // every name of `rt` comes after s[0]
        assert forall|b: int| 0 <= b < rt.len() implies text_lt(s[0].0, #[trigger] rt[b].0) by {
            lemma_put_entry_names(t, k, v);
            if rt[b].0 == k {
            } else {
                let j = choose|j: int| 0 <= j < t.len() && #[trigger] t[j].0 == rt[b].0;
                assert(t[j] == s[j + 1]);
            }
        }
        assert forall|a: int, b: int| 0 <= a < b < r.len() implies text_lt(#[trigger] r[a].0, #[trigger] r[b].0) by {
            if a == 0 {
                assert(r[b] == rt[b - 1]);
            } else {
                assert(r[a] == rt[a - 1]);
                assert(r[b] == rt[b - 1]);
            }
        }
        assert(r.drop_first() =~= rt);
        assert forall|other: Seq<char>| other != k implies #[trigger] entry_value(r, other) == entry_value(s, other) by {
            assert(entry_value(rt, other) == entry_value(t, other));
        }
    }
}

/// Every name after putting `k` in is `k` or a name that was there.
proof fn lemma_put_entry_names(s: Seq<(Seq<char>, Seq<char>)>, k: Seq<char>, v: Seq<char>)
    ensures
        forall|b: int| 0 <= b < put_entry(s, k, v).len() ==> #[trigger] put_entry(s, k, v)[b].0 == k
            || exists|j: int| 0 <= j < s.len() && #[trigger] s[j].0 == put_entry(s, k, v)[b].0,
    decreases s.len(),
{
    let r = put_entry(s, k, v);
    if s.len() == 0 {
    } else if s[0].0 == k {
        assert forall|b: int| 0 <= b < r.len() implies #[trigger] r[b].0 == k
            || exists|j: int| 0 <= j < s.len() && #[trigger] s[j].0 == r[b].0 by {
            if b > 0 {
                assert(r[b] == s[b]);
            }
        }
    } else if text_lt(k, s[0].0) {
        assert forall|b: int| 0 <= b < r.len() implies #[trigger] r[b].0 == k
            || exists|j: int| 0 <= j < s.len() && #[trigger] s[j].0 == r[b].0 by {
            if b > 0 {
                assert(r[b] == s[b - 1]);
            }
        }
    } else {
        let t = s.drop_first();
        lemma_put_entry_names(t, k, v);
        let rt = put_entry(t, k, v);
        assert forall|b: int| 0 <= b < r.len() implies #[trigger] r[b].0 == k
            || exists|j: int| 0 <= j < s.len() && #[trigger] s[j].0 == r[b].0 by {
            if b == 0 {
                assert(s[0].0 == r[0].0);
            } else {
                assert(r[b] == rt[b - 1]);
                if rt[b - 1].0 != k {
                    let j = choose|j: int| 0 <= j < t.len() && #[trigger] t[j].0 == rt[b - 1].0;
                    assert(s[j + 1] == t[j]);
                }
            }
        }
    }
}

/// In ascending entries, the value of a name is the value at its position,
/// and a name at no position has none.
pub proof fn lemma_entry_value_at(s: Seq<(Seq<char>, Seq<char>)>, k: Seq<char>)
    requires
        names_ascend(s),
    ensures
        forall|i: int| 0 <= i < s.len() && #[trigger] s[i].0 == k ==> entry_value(s, k) == Some(s[i].1),
        (forall|i: int| 0 <= i < s.len() ==> #[trigger] s[i].0 != k) ==> entry_value(s, k) is None,
    decreases s.len(),
{
    if s.len() > 0 {
        let t = s.drop_first();
        assert forall|a: int, b: int| 0 <= a < b < t.len() implies text_lt(#[trigger] t[a].0, #[trigger] t[b].0) by {
            assert(t[a] == s[a + 1]);
            assert(t[b] == s[b + 1]);
        }
        lemma_entry_value_at(t, k);
        assert forall|i: int| 0 <= i < s.len() && #[trigger] s[i].0 == k implies entry_value(s, k) == Some(s[i].1) by {
            if i > 0 {
                assert(t[i - 1] == s[i]);
                if s[0].0 == k {
                    assert(text_lt(s[0].0, s[i].0));
                    lemma_text_lt_irreflexive(k);
                }
            }
        }
        if forall|i: int| 0 <= i < s.len() ==> #[trigger] s[i].0 != k {
            assert forall|i: int| 0 <= i < t.len() implies #[trigger] t[i].0 != k by {
                assert(t[i] == s[i + 1]);
            }
        }
    }
}

/// A map from text to text: names ascending, each once.
pub struct TextMap {
    entries: Vec<(String, String)>,
}

/// The views of a list of name/value pairs.
pub open spec fn pairs_view(v: Seq<(String, String)>) -> Seq<(Seq<char>, Seq<char>)> {
    v.map_values(|p: (String, String)| (p.0@, p.1@))
}

impl View for TextMap {
    type V = Seq<(Seq<char>, Seq<char>)>;

    closed spec fn view(&self) -> Seq<(Seq<char>, Seq<char>)> {
        pairs_view(self.entries@)
    }
}

impl TextMap {
    /// The list is well-formed: names ascend.
    pub open spec fn wf(&self) -> bool {
        names_ascend(self@)
    }

    /// An empty map.
    pub fn new() -> (h: TextMap)
        ensures
            h.wf(),
            h@.len() == 0,
    {
        let h = TextMap { entries: Vec::new() };
        assert(h@ =~= Seq::<(Seq<char>, Seq<char>)>::empty());
        h
    }

    /// Sets `name` to `value`, replacing an earlier value for `name`.
    pub fn put(&mut self, name: &str, value: &str)
        requires
            old(self).wf(),
        ensures
            final(self).wf(),
            final(self)@ == put_entry(old(self)@, name@, value@),
    {
        let k = chars_of(name);
        let ghost s = self@;
        let mut i: usize = 0;
        let mut go = true;
        while go && i < self.entries.len()
            invariant
                s == self@,
                names_ascend(s),
                k@ == name@,
                i <= s.len(),
                self.entries@.len() == s.len(),
                forall|j: int| 0 <= j < i ==> text_lt(#[trigger] s[j].0, k@),
                !go ==> i < s.len() && !text_lt(s[i as int].0, k@),
            decreases s.len() - i + (if go { 1int } else { 0int }),
        {
            let n = chars_of(self.entries[i].0.as_str());
            assert(n@ == s[i as int].0);
            if text_less(&n, &k) {
                i = i + 1;
            } else {
                go = false;
            }
        }
        proof {
            lemma_put_entry_split(s, name@, value@, i as int);
            lemma_put_entry(s, name@, value@);
        }
        let replace = if i < self.entries.len() {
            let n = chars_of(self.entries[i].0.as_str());
            crate::text::same_chars(&n, &k)
        } else {
            false
        };
        let entry = (crate::text::string_from(name), crate::text::string_from(value));
        let ghost before = self.entries@;
        if replace {
            self.entries.set(i, entry);
            assert(self@ =~= s.subrange(0, i as int).push((name@, value@)) + s.subrange(i + 1, s.len() as int));
        } else {
            self.entries.insert(i, entry);
            assert(self@ =~= s.subrange(0, i as int).push((name@, value@)) + s.subrange(i as int, s.len() as int));
        }
    }

    /// The position of the entry named `name`.
    fn find(&self, name: &str) -> (r: Option<usize>)
        ensures
            match r {
                Some(i) => i < self@.len() && self@[i as int].0 == name@,
                None => forall|i: int| 0 <= i < self@.len() ==> #[trigger] self@[i].0 != name@,
            },
    {
        let k = chars_of(name);
        let mut i: usize = 0;
        while i < self.entries.len()
            invariant
                i <= self@.len(),
                self.entries@.len() == self@.len(),
                k@ == name@,
                forall|j: int| 0 <= j < i ==> #[trigger] self@[j].0 != name@,
            decreases self.entries.len() - i,
        {
            let n = chars_of(self.entries[i].0.as_str());
            assert(n@ == self@[i as int].0);
            if crate::text::same_chars(&n, &k) {
                return Some(i);
            }
            i = i + 1;
        }
        None
    }

    /// The value of `name`, if it has one.
    pub fn get(&self, name: &str) -> (r: Option<String>)
        requires
            self.wf(),
        ensures
            match r {
                Some(v) => entry_value(self@, name@) == Some(v@),
                None => entry_value(self@, name@) is None,
            },
    {
        proof {
            lemma_entry_value_at(self@, name@);
        }
        match self.find(name) {
            Some(i) => Some(self.entries[i].1.clone()),
            None => None,
        }
    }

    /// Removes `name` and its value; every other name keeps its value.
    pub fn remove(&mut self, name: &str)
        requires
            old(self).wf(),
        ensures
            final(self).wf(),
            entry_value(final(self)@, name@) is None,
            forall|other: Seq<char>| other != name@ ==> #[trigger] entry_value(final(self)@, other) == entry_value(old(self)@, other),
    {
        let ghost s = self@;
        proof {
            lemma_entry_value_at(s, name@);
        }
        match self.find(name) {
            Some(i) => {
                self.entries.remove(i);
                let ghost r = self@;
                assert(r =~= s.remove(i as int));
                assert forall|a: int, b: int| 0 <= a < b < r.len() implies text_lt(#[trigger] r[a].0, #[trigger] r[b].0) by {
                    let a2 = if a < i { a } else { a + 1 };
                    let b2 = if b < i { b } else { b + 1 };
                    assert(r[a] == s[a2]);
                    assert(r[b] == s[b2]);
                }
                proof {
                    lemma_entry_value_at(r, name@);
                    assert forall|j: int| 0 <= j < r.len() implies #[trigger] r[j].0 != name@ by {
                        let j2 = if j < i { j } else { j + 1 };
                        assert(r[j] == s[j2]);
                        if j2 != i {
                            lemma_text_lt_total(s[j2].0, s[i as int].0);
                            if j2 < i {
                                assert(text_lt(s[j2].0, s[i as int].0));
                            } else {
                                assert(text_lt(s[i as int].0, s[j2].0));
                            }
                            lemma_text_lt_irreflexive(name@);
                        }
                    }
                    assert forall|other: Seq<char>| other != name@ implies #[trigger] entry_value(r, other) == entry_value(s, other) by {
                        lemma_entry_value_at(r, other);
                        lemma_entry_value_at(s, other);
                        if exists|j: int| 0 <= j < s.len() && #[trigger] s[j].0 == other {
                            let j = choose|j: int| 0 <= j < s.len() && #[trigger] s[j].0 == other;
                            assert(j != i);
                            let j2 = if j < i { j } else { j - 1 };
                            assert(r[j2] == s[j]);
                        } else {
                            assert forall|j: int| 0 <= j < r.len() implies #[trigger] r[j].0 != other by {
                                let j2 = if j < i { j } else { j + 1 };
                                assert(r[j] == s[j2]);
                            }
                        }
                    }
                }
            },
            None => {},
        }
    }

    /// Removes every entry.
    pub fn clear(&mut self)
        ensures
            final(self).wf(),
            final(self)@.len() == 0,
    {
        self.entries = Vec::new();
        assert(self@ =~= Seq::<(Seq<char>, Seq<char>)>::empty());
    }

    /// The JSON object of the map, names in order, as `serde_json` writes it.
    pub fn to_json(&self) -> (r: String)
        ensures
            r@ == object_json(self@),
    {
        let mut out = crate::text::string_from("{");
        let mut i: usize = 0;
        proof {
            reveal_strlit("{");
        }
        while i < self.entries.len()
            invariant
                i <= self.entries@.len(),
                out@ == seq!['{'] + members_json(self@.subrange(0, i as int)),
            decreases self.entries.len() - i,
        {
            proof {
                let p = self@.subrange(0, i + 1);
                assert(p.drop_last() =~= self@.subrange(0, i as int));
                assert(p.last() == self@[i as int]);
            }
            if i > 0 {
                out.push(',');
            }
            push_json_string(&mut out, self.entries[i].0.as_str());
            out.push(':');
            push_json_string(&mut out, self.entries[i].1.as_str());
            i = i + 1;
        }
        assert(self@.subrange(0, self@.len() as int) =~= self@);
        out.push('}');
        out
    }
}

/// The members of a JSON object for `s`: `"name":"value"`, comma-separated.
pub open spec fn members_json(s: Seq<(Seq<char>, Seq<char>)>) -> Seq<char>
    decreases s.len(),
{
    if s.len() == 0 {
        Seq::empty()
    } else {
        let m = json_quote(s.last().0) + seq![':'] + json_quote(s.last().1);
        if s.len() == 1 {
            m
        } else {
            members_json(s.drop_last()) + seq![','] + m
        }
    }
}

/// The JSON object for `s`.
pub open spec fn object_json(s: Seq<(Seq<char>, Seq<char>)>) -> Seq<char> {
    seq!['{'] + members_json(s) + seq!['}']
}

/// Collects name/value pairs into a map, a later value for a name replacing
/// an earlier one.
pub fn collect_headers(pairs: &Vec<(String, String)>) -> (h: TextMap)
    ensures
        h.wf(),
        h@ == put_all(Seq::empty(), pairs_view(pairs@)),
{
    let mut h = TextMap::new();
    let mut i: usize = 0;
    while i < pairs.len()
        invariant
            i <= pairs.len(),
            h.wf(),
            h@ == put_all(Seq::empty(), pairs_view(pairs@.subrange(0, i as int))),
        decreases pairs.len() - i,
    {
        proof {
            let p = pairs_view(pairs@.subrange(0, i + 1));
            assert(p.drop_last() =~= pairs_view(pairs@.subrange(0, i as int)));
            assert(p.last() == (pairs@[i as int].0@, pairs@[i as int].1@));
        }
        h.put(pairs[i].0.as_str(), pairs[i].1.as_str());
        i = i + 1;
    }
    assert(pairs@.subrange(0, pairs@.len() as int) =~= pairs@);
    h
}

/// Putting a value in then reading it back gives that value, and leaves
/// every other name as it was.
pub proof fn law_put_then_get(s: Seq<(Seq<char>, Seq<char>)>, k: Seq<char>, v: Seq<char>, other: Seq<char>)
    requires
        names_ascend(s),
        other != k,
    ensures
        entry_value(put_entry(s, k, v), k) == Some(v),
        entry_value(put_entry(s, k, v), other) == entry_value(s, other),
        names_ascend(put_entry(s, k, v)),
{
    lemma_put_entry(s, k, v);
}

} // verus!
