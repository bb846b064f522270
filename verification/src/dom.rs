//! Document order on the page's node tree.
//!
//! The tree is read through its links: each node's parent and previous
//! sibling, by node index. A node's position among its siblings, its line
//! of ancestors, its root, and the order of two nodes in the document follow
//! from those links alone.

use vstd::prelude::*;
use crate::text::{
    chars_of, json_quote, parse_unsigned, parse_unsigned_exec, push_dec, push_str, replace_all,
    replace_all_exec, same_text, string_from, string_of,
};

verus! {

/// The parent and previous-sibling links of the nodes, by node index (a
/// node past the end of a list has no such link).
pub struct NodeLinks {
    pub parent: Vec<Option<u32>>,
    pub prev_sibling: Vec<Option<u32>>,
}

/// The parent of `n`.
pub open spec fn parent_of(l: NodeLinks, n: u32) -> Option<u32> {
    if n < l.parent@.len() {
        l.parent@[n as int]
    } else {
        None
    }
}

/// The previous sibling of `n`.
pub open spec fn prev_of(l: NodeLinks, n: u32) -> Option<u32> {
    if n < l.prev_sibling@.len() {
        l.prev_sibling@[n as int]
    } else {
        None
    }
}

/// The rank of `n` in a ranking (0 past its end).
pub open spec fn rank_at(r: Seq<nat>, n: u32) -> nat {
    if n < r.len() {
        r[n as int]
    } else {
        0
    }
}

/// `rp` strictly decreases along parent links and `rs` along sibling links.
pub open spec fn ranks_ok(l: NodeLinks, rp: Seq<nat>, rs: Seq<nat>) -> bool {
    &&& forall|n: u32| #[trigger] parent_of(l, n) matches Some(p) ==> rank_at(rp, p) < rank_at(rp, n)
    &&& forall|n: u32| #[trigger] prev_of(l, n) matches Some(p) ==> rank_at(rs, p) < rank_at(rs, n)
}

/// Following parent links, or previous-sibling links, always ends: the
/// links have no cycle.
pub open spec fn acyclic(l: NodeLinks) -> bool {
    exists|r: (Seq<nat>, Seq<nat>)| ranks_ok(l, r.0, r.1)
}

/// A ranking that shows the links acyclic.
pub open spec fn ranks(l: NodeLinks) -> (Seq<nat>, Seq<nat>) {
    choose|r: (Seq<nat>, Seq<nat>)| ranks_ok(l, r.0, r.1)
}

/// The nodes from the root of `n`'s tree down to `n`.
pub open spec fn lineage(l: NodeLinks, n: u32) -> Seq<u32>
    decreases rank_at(ranks(l).0, n),
    when acyclic(l)
{
    match parent_of(l, n) {
        Some(p) => lineage(l, p).push(n),
        None => seq![n],
    }
}

/// The number of siblings before `n`.
pub open spec fn sibling_index(l: NodeLinks, n: u32) -> nat
    decreases rank_at(ranks(l).1, n),
    when acyclic(l)
{
    match prev_of(l, n) {
        Some(p) => 1 + sibling_index(l, p),
        None => 0,
    }
}

/// The lineage starts at a root and ends at the node, one parent link per
/// step.
pub proof fn lemma_lineage(l: NodeLinks, n: u32)
    requires
        acyclic(l),
    ensures
        lineage(l, n).len() >= 1,
        lineage(l, n).last() == n,
        parent_of(l, lineage(l, n)[0]) is None,
        forall|i: int| 0 < i < lineage(l, n).len() ==> parent_of(l, #[trigger] lineage(l, n)[i]) == Some(
            lineage(l, n)[i - 1],
        ),
    decreases rank_at(ranks(l).0, n),
{
    match parent_of(l, n) {
        Some(p) => {
            lemma_lineage(l, p);
            let s = lineage(l, p);
            let t = lineage(l, n);
            assert(t == s.push(n));
            assert forall|i: int| 0 < i < t.len() implies parent_of(l, #[trigger] t[i]) == Some(t[i - 1]) by {
                if i < s.len() {
                    assert(t[i] == s[i]);
                    assert(t[i - 1] == s[i - 1]);
                }
            }
        },
        None => {},
    }
}

/// The lineage of `n`, root first.
pub fn node_ancestors_root_first(links: &NodeLinks, n: u32) -> (v: Vec<u32>)
    requires
        acyclic(*links),
    ensures
        v@ == lineage(*links, n),
{
    let ghost l = *links;
    let mut v: Vec<u32> = vec![n];
    let mut cur = n;
    loop
        invariant
            l == *links,
            acyclic(l),
            lineage(l, n) == lineage(l, cur).drop_last() + v@,
        ensures
            v@ == lineage(l, n),
        decreases rank_at(ranks(l).0, cur),
    {
        let p = if (cur as usize) < links.parent.len() {
            links.parent[cur as usize]
        } else {
            None
        };
        assert(p == parent_of(l, cur));
        match p {
            Some(q) => {
                proof {
                    let r = ranks(l);
                    assert(ranks_ok(l, r.0, r.1));
                    assert(parent_of(l, cur) matches Some(pp) ==> rank_at(r.0, pp) < rank_at(r.0, cur));
                    assert(lineage(l, cur) == lineage(l, q).push(cur));
                    assert(lineage(l, q) == lineage(l, q).drop_last().push(q)) by {
                        lemma_lineage(l, q);
                    }
                }
                let ghost old_v = v@;
                v.insert(0, q);
                assert(v@ =~= seq![q] + old_v);
                assert(lineage(l, n) =~= lineage(l, q).drop_last() + v@);
                cur = q;
            },
            None => {
                assert(lineage(l, cur) == seq![cur]);
                assert(lineage(l, n) =~= v@);
                break;
            },
        }
    }
    v
}

/// The position of `n` among its siblings.
pub fn node_child_index(links: &NodeLinks, n: u32) -> (r: u64)
    requires
        acyclic(*links),
        sibling_index(*links, n) <= u64::MAX,
    ensures
        r == sibling_index(*links, n),
{
    let ghost l = *links;
    let mut i: u64 = 0;
    let mut cur = n;
    loop
        invariant
            l == *links,
            acyclic(l),
            sibling_index(l, n) == i + sibling_index(l, cur),
            sibling_index(l, n) <= u64::MAX,
        ensures
            i == sibling_index(l, n),
        decreases rank_at(ranks(l).1, cur),
    {
        let p = if (cur as usize) < links.prev_sibling.len() {
            links.prev_sibling[cur as usize]
        } else {
            None
        };
        assert(p == prev_of(l, cur));
        match p {
            Some(q) => {
                proof {
                    let r = ranks(l);
                    assert(ranks_ok(l, r.0, r.1));
                    assert(prev_of(l, cur) matches Some(pp) ==> rank_at(r.1, pp) < rank_at(r.1, cur));
                    assert(sibling_index(l, cur) == 1 + sibling_index(l, q));
                }
                i = i + 1;
                cur = q;
            },
            None => {
                assert(sibling_index(l, cur) == 0);
                break;
            },
        }
    }
    i
}

/// The root of `n`'s tree.
pub fn node_root(links: &NodeLinks, n: u32) -> (r: u32)
    requires
        acyclic(*links),
    ensures
        r == lineage(*links, n)[0],
{
    proof {
        lemma_lineage(*links, n);
    }
    let v = node_ancestors_root_first(links, n);
    v[0]
}

/// The length of the common prefix of two lineages.
pub open spec fn shared_len(a: Seq<u32>, b: Seq<u32>, i: nat) -> nat
    decreases a.len() - i,
{
    if i < a.len() && i < b.len() && a[i as int] == b[i as int] {
        shared_len(a, b, i + 1)
    } else {
        i
    }
}

/// The document order of `a` and `b`: 0 for the same node, -1 where `a`
/// comes first, 1 where `b` does. Nodes of different trees are ordered by
/// index; within a tree an ancestor comes before its descendants, and
/// otherwise the children where the lineages part are ordered by their
/// sibling positions.
pub open spec fn document_order(l: NodeLinks, a: u32, b: u32) -> int {
    if a == b {
        0
    } else {
        let aa = lineage(l, a);
        let bb = lineage(l, b);
        if aa[0] != bb[0] {
            if a < b {
                -1
            } else {
                1
            }
        } else {
            let k = shared_len(aa, bb, 0);
            if k >= aa.len() {
                -1
            } else if k >= bb.len() {
                1
            } else if sibling_index(l, aa[k as int]) < sibling_index(l, bb[k as int]) {
                -1
            } else {
                1
            }
        }
    }
}

/// The common prefix of `aa` and `bb`, from `i` on.
fn shared_len_exec(aa: &Vec<u32>, bb: &Vec<u32>) -> (r: usize)
    ensures
        r == shared_len(aa@, bb@, 0),
{
    let mut i: usize = 0;
    while i < aa.len() && i < bb.len() && aa[i] == bb[i]
        invariant
            i <= aa.len(),
            i <= bb.len(),
            shared_len(aa@, bb@, 0) == shared_len(aa@, bb@, i as nat),
        decreases aa.len() - i,
    {
        i = i + 1;
    }
    i
}

/// The document order of `a` and `b` (see `document_order`).
pub fn compare_node_order(links: &NodeLinks, a: u32, b: u32) -> (r: i32)
    requires
        acyclic(*links),
        forall|n: u32| #[trigger] sibling_index(*links, n) <= u64::MAX,
    ensures
        r == document_order(*links, a, b),
{
    if a == b {
        return 0;
    }
    let aa = node_ancestors_root_first(links, a);
    let bb = node_ancestors_root_first(links, b);
    proof {
        lemma_lineage(*links, a);
        lemma_lineage(*links, b);
    }
    if aa[0] != bb[0] {
        return if a < b {
            -1
        } else {
            1
        };
    }
    let i = shared_len_exec(&aa, &bb);
    if i >= aa.len() {
        return -1;
    }
    if i >= bb.len() {
        return 1;
    }
    let ia = node_child_index(links, aa[i]);
    let ib = node_child_index(links, bb[i]);
    if ia < ib {
        -1
    } else {
        1
    }
}

/// A node is in document order with itself: the order of a node and
/// itself is 0.
pub proof fn law_order_reflexive(l: NodeLinks, a: u32)
    ensures
        document_order(l, a, a) == 0,
{
}

/// The shared prefix of two lineages is the same read either way.
proof fn lemma_shared_len_symmetric(a: Seq<u32>, b: Seq<u32>, i: nat)
    ensures
        shared_len(a, b, i) == shared_len(b, a, i),
    decreases a.len() - i,
{
    if i < a.len() && i < b.len() && a[i as int] == b[i as int] {
        lemma_shared_len_symmetric(a, b, i + 1);
    }
}

/// Document order is antisymmetric where sibling positions tell siblings
/// apart (as they do in a tree whose sibling links are those of its
/// children lists): the order of `b` and `a` is the opposite of that of `a`
/// and `b`.
pub proof fn law_order_antisymmetric(l: NodeLinks, a: u32, b: u32)
    requires
        acyclic(l),
        forall|x: u32, y: u32|
            x != y && parent_of(l, x) == parent_of(l, y) && parent_of(l, x) is Some ==> #[trigger] sibling_index(l, x)
                != #[trigger] sibling_index(l, y),
    ensures
        document_order(l, a, b) == -document_order(l, b, a),
{
    if a != b {
        let aa = lineage(l, a);
        let bb = lineage(l, b);
        lemma_lineage(l, a);
        lemma_lineage(l, b);
        lemma_shared_len_symmetric(aa, bb, 0);
        if aa[0] == bb[0] {
            let k = shared_len(aa, bb, 0);
            lemma_shared_len_props(aa, bb, 0);
            if k < aa.len() && k < bb.len() {
                assert(k >= 1);
                assert(aa[k - 1] == bb[k - 1]);
                assert(parent_of(l, aa[k as int]) == Some(aa[k - 1]));
                assert(parent_of(l, bb[k as int]) == Some(bb[k - 1]));
                assert(sibling_index(l, aa[k as int]) != sibling_index(l, bb[k as int]));
            }
        }
    }
}

proof fn lemma_shared_len_props(a: Seq<u32>, b: Seq<u32>, i: nat)
    requires
        i <= a.len(),
        i <= b.len(),
        forall|j: int| 0 <= j < i ==> a[j] == b[j],
    ensures
        i <= shared_len(a, b, i) <= a.len(),
        shared_len(a, b, i) <= b.len(),
        forall|j: int| 0 <= j < shared_len(a, b, i) ==> a[j] == b[j],
        shared_len(a, b, i) < a.len() && shared_len(a, b, i) < b.len() ==> a[shared_len(a, b, i) as int]
            != b[shared_len(a, b, i) as int],
    decreases a.len() - i,
{
    if i < a.len() && i < b.len() && a[i as int] == b[i as int] {
        lemma_shared_len_props(a, b, i + 1);
    }
}

/// An ancestor comes before its descendants in document order.
pub proof fn law_ancestor_first(l: NodeLinks, a: u32, b: u32)
    requires
        acyclic(l),
        a != b,
        lineage(l, b).contains(a),
    ensures
        document_order(l, a, b) == -1,
        document_order(l, b, a) == 1,
{
    let aa = lineage(l, a);
    let bb = lineage(l, b);
    lemma_lineage(l, a);
    lemma_lineage(l, b);
    let j = choose|j: int| 0 <= j < bb.len() && bb[j] == a;
    lemma_lineage_prefix(l, b, j);
    assert(aa =~= bb.subrange(0, j + 1));
    lemma_shared_len_props(aa, bb, 0);
    lemma_shared_len_symmetric(aa, bb, 0);
    let k = shared_len(aa, bb, 0);
    if k < aa.len() {
        assert(aa[k as int] == bb[k as int]);
    }
}

/// The links are those of a tree's children lists: a previous sibling has
/// the same parent, no two nodes have the same previous sibling, and only
/// one child of a parent has no previous sibling.
pub open spec fn tree_links_wf(l: NodeLinks) -> bool {
    &&& forall|n: u32| #[trigger] prev_of(l, n) matches Some(p) ==> parent_of(l, p) == parent_of(l, n)
    &&& forall|x: u32, y: u32|
        x != y && prev_of(l, x) is Some ==> #[trigger] prev_of(l, x) != #[trigger] prev_of(l, y)
    &&& forall|x: u32, y: u32|
        x != y && parent_of(l, x) is Some && #[trigger] parent_of(l, x) == #[trigger] parent_of(l, y)
            && prev_of(l, x) is None ==> prev_of(l, y) is Some
}

/// In such links, distinct children of one parent have distinct positions.
pub proof fn lemma_tree_sibling_positions(l: NodeLinks, x: u32, y: u32)
    requires
        acyclic(l),
        tree_links_wf(l),
        x != y,
        parent_of(l, x) is Some,
        parent_of(l, x) == parent_of(l, y),
    ensures
        sibling_index(l, x) != sibling_index(l, y),
    decreases sibling_index(l, x),
{
    if sibling_index(l, x) == sibling_index(l, y) {
        match prev_of(l, x) {
            None => {
                assert(sibling_index(l, x) == 0);
                assert(prev_of(l, y) is Some);
                assert(sibling_index(l, y) == 1 + sibling_index(l, prev_of(l, y).unwrap()));
            },
            Some(xp) => {
                assert(sibling_index(l, x) == 1 + sibling_index(l, xp));
                match prev_of(l, y) {
                    None => {
                        assert(sibling_index(l, y) == 0);
                    },
                    Some(yp) => {
                        assert(sibling_index(l, y) == 1 + sibling_index(l, yp));
                        assert(prev_of(l, x) != prev_of(l, y));
                        assert(parent_of(l, xp) == parent_of(l, x));
                        assert(parent_of(l, yp) == parent_of(l, y));
                        lemma_tree_sibling_positions(l, xp, yp);
                    },
                }
            },
        }
    }
}

/// Law: in the links of a tree, document order is antisymmetric for every
/// two nodes: the order of `b` and `a` is the opposite of that of `a` and
/// `b`.
pub proof fn law_tree_order_antisymmetric(l: NodeLinks, a: u32, b: u32)
    requires
        acyclic(l),
        tree_links_wf(l),
    ensures
        document_order(l, a, b) == -document_order(l, b, a),
{
    assert forall|x: u32, y: u32|
        x != y && parent_of(l, x) == parent_of(l, y) && parent_of(l, x) is Some implies #[trigger] sibling_index(l, x)
            != #[trigger] sibling_index(l, y) by {
        lemma_tree_sibling_positions(l, x, y);
    }
    law_order_antisymmetric(l, a, b);
}

/// Law: document order is -1, 0 or 1, and 0 exactly for a node and itself.
pub proof fn law_order_values(l: NodeLinks, a: u32, b: u32)
    ensures
        document_order(l, a, b) == -1 || document_order(l, a, b) == 0 || document_order(l, a, b) == 1,
        (document_order(l, a, b) == 0) == (a == b),
{
}

/// Equal prefixes up to `n` leave the shared length unchanged from 0 to `n`.
proof fn lemma_shared_len_skip(a: Seq<u32>, b: Seq<u32>, i: nat, n: nat)
    requires
        i <= n <= a.len(),
        n <= b.len(),
        forall|j: int| 0 <= j < n ==> a[j] == b[j],
    ensures
        shared_len(a, b, i) == shared_len(a, b, n),
    decreases n - i,
{
    if i < n {
        lemma_shared_len_skip(a, b, i + 1, n);
    }
}

/// Law: two distinct children of one parent are in the order of their
/// sibling positions: the one with fewer siblings before it comes first.
pub proof fn law_sibling_order(l: NodeLinks, a: u32, b: u32)
    requires
        acyclic(l),
        a != b,
        parent_of(l, a) is Some,
        parent_of(l, a) == parent_of(l, b),
    ensures
        (document_order(l, a, b) == -1) == (sibling_index(l, a) < sibling_index(l, b)),
{
    let p = parent_of(l, a).unwrap();
    let lp = lineage(l, p);
    lemma_lineage(l, p);
    let aa = lineage(l, a);
    let bb = lineage(l, b);
    assert(aa == lp.push(a));
    assert(bb == lp.push(b));
    let n = lp.len();
    assert forall|j: int| 0 <= j < n implies aa[j] == bb[j] by {
        assert(aa[j] == lp[j]);
        assert(bb[j] == lp[j]);
    }
    assert(aa[0] == bb[0]);
    lemma_shared_len_skip(aa, bb, 0, n);
    assert(aa[n as int] == a);
    assert(bb[n as int] == b);
    assert(shared_len(aa, bb, n) == n);
}

/// The lineage of a node on `n`'s lineage is the prefix up to it.
proof fn lemma_lineage_prefix(l: NodeLinks, n: u32, j: int)
    requires
        acyclic(l),
        0 <= j < lineage(l, n).len(),
    ensures
        lineage(l, lineage(l, n)[j]) == lineage(l, n).subrange(0, j + 1),
    decreases rank_at(ranks(l).0, n),
{
    let s = lineage(l, n);
    lemma_lineage(l, n);
    match parent_of(l, n) {
        Some(p) => {
            let r = ranks(l);
            assert(ranks_ok(l, r.0, r.1));
            assert(parent_of(l, n) matches Some(pp) ==> rank_at(r.0, pp) < rank_at(r.0, n));
            let t = lineage(l, p);
            assert(s == t.push(n));
            if j == s.len() - 1 {
                assert(s.subrange(0, j + 1) =~= s);
            } else {
                lemma_lineage_prefix(l, p, j);
                assert(s[j] == t[j]);
                assert(t.subrange(0, j + 1) =~= s.subrange(0, j + 1));
            }
        },
        None => {
            assert(s.subrange(0, 1) =~= s);
        },
    }
}

// ---------------------------------------------------------------------------
// Checking that the links end
// ---------------------------------------------------------------------------

/// The link of `n` of one kind: its parent where `up`, its previous sibling
/// otherwise.
pub open spec fn link_of(l: NodeLinks, up: bool, n: u32) -> Option<u32> {
    if up {
        parent_of(l, n)
    } else {
        prev_of(l, n)
    }
}

/// The number of links of one kind from `n` to a node without one, where
/// that takes fewer than `fuel` steps.
pub open spec fn steps(l: NodeLinks, up: bool, n: u32, fuel: nat) -> Option<nat>
    decreases fuel,
{
    if fuel == 0 {
        None
    } else {
        match link_of(l, up, n) {
            None => Some(0),
            Some(p) => match steps(l, up, p, (fuel - 1) as nat) {
                Some(k) => Some(k + 1),
                None => None,
            },
        }
    }
}

proof fn lemma_steps_more_fuel(l: NodeLinks, up: bool, n: u32, f: nat, g: nat)
    requires
        f <= g,
        steps(l, up, n, f) is Some,
    ensures
        steps(l, up, n, g) == steps(l, up, n, f),
    decreases f,
{
    match link_of(l, up, n) {
        None => {},
        Some(p) => {
            lemma_steps_more_fuel(l, up, p, (f - 1) as nat, (g - 1) as nat);
        },
    }
}

/// The ranking given by the step counts of the first `len` nodes.
pub open spec fn step_ranks(l: NodeLinks, up: bool, len: nat, fuel: nat) -> Seq<nat> {
    Seq::new(len, |i: int| match steps(l, up, i as u32, fuel) {
        Some(k) => k,
        None => 0,
    })
}

/// Where every chain of one kind from a listed node ends within `fuel`
/// steps, the step counts decrease along the links.
proof fn lemma_step_ranks(l: NodeLinks, up: bool, len: nat, fuel: nat)
    requires
        fuel >= 1,
        len <= u32::MAX + 1,
        forall|n: u32| n < len ==> #[trigger] steps(l, up, n, fuel) is Some,
        forall|n: u32| n >= len ==> #[trigger] link_of(l, up, n) is None,
    ensures
        forall|n: u32| #[trigger] link_of(l, up, n) matches Some(p) ==> rank_at(step_ranks(l, up, len, fuel), p)
            < rank_at(step_ranks(l, up, len, fuel), n),
{
    let r = step_ranks(l, up, len, fuel);
    assert forall|n: u32| #[trigger] link_of(l, up, n) is Some implies rank_at(r, link_of(l, up, n)->0) < rank_at(r, n) by {
        let p = link_of(l, up, n)->0;
        assert(n < len);
        assert(steps(l, up, n, fuel) is Some);
        let k = steps(l, up, n, fuel)->0;
        assert(steps(l, up, p, (fuel - 1) as nat) is Some);
        assert(rank_at(r, n) == k);
        if p < len {
            lemma_steps_more_fuel(l, up, p, (fuel - 1) as nat, fuel);
            assert(rank_at(r, p) == k - 1);
        }
    }
}

/// `o` with `t` added to its count.
pub open spec fn add_steps(o: Option<nat>, t: nat) -> Option<nat> {
    match o {
        Some(k) => Some(k + t),
        None => None,
    }
}

/// Every chain of one kind from the first `len` nodes ends within `len + 1`
/// steps.
pub open spec fn chains_end_spec(l: NodeLinks, up: bool, len: nat) -> bool {
    forall|n: u32| n < len ==> #[trigger] steps(l, up, n, len + 1) is Some
}

/// Whether every chain of one kind from the first `len` nodes ends within
/// `len + 1` steps.
fn chains_end(l: &NodeLinks, up: bool, len: usize) -> (r: bool)
    requires
        len == (if up { l.parent@.len() } else { l.prev_sibling@.len() }),
        len < u32::MAX,
    ensures
        r == chains_end_spec(*l, up, len as nat),
{
    let ghost fuel = (len + 1) as nat;
    let mut i: usize = 0;
    while i < len
        invariant
            i <= len < u32::MAX,
            len == (if up { l.parent@.len() } else { l.prev_sibling@.len() }),
            fuel == len + 1,
            forall|n: u32| n < i ==> #[trigger] steps(*l, up, n, fuel) is Some,
        decreases len - i,
    {
        let mut cur: u32 = i as u32;
        let mut taken: usize = 0;
        let mut done = false;
        while !done
            invariant
                i < len < u32::MAX,
                len == (if up { l.parent@.len() } else { l.prev_sibling@.len() }),
                fuel == len + 1,
                taken <= len,
                done ==> steps(*l, up, i as u32, fuel) is Some,
                !done ==> steps(*l, up, i as u32, fuel) == add_steps(steps(*l, up, cur, (fuel - taken) as nat), taken as nat),
            decreases len - taken + (if done { 0int } else { 1int }),
        {
            let next = if up {
                if (cur as usize) < l.parent.len() {
                    l.parent[cur as usize]
                } else {
                    None
                }
            } else {
                if (cur as usize) < l.prev_sibling.len() {
                    l.prev_sibling[cur as usize]
                } else {
                    None
                }
            };
            assert(next == link_of(*l, up, cur));
            match next {
                None => {
                    assert(steps(*l, up, cur, (fuel - taken) as nat) == Some(0nat));
                    done = true;
                },
                Some(p) => {
                    if taken == len {
                        assert(steps(*l, up, p, 0) is None);
                        assert(steps(*l, up, cur, 1) is None);
                        assert(!chains_end_spec(*l, up, len as nat)) by {
                            assert(i < len);
                            assert(steps(*l, up, i as u32, fuel) is None);
                        }
                        return false;
                    }
                    proof {
                        let f = (fuel - taken) as nat;
                        assert(steps(*l, up, cur, f) == add_steps(steps(*l, up, p, (f - 1) as nat), 1));
                    }
                    cur = p;
                    taken = taken + 1;
                },
            }
        }
        i = i + 1;
    }
    true
}

/// Both kinds of chain end within the number of listed nodes.
pub open spec fn links_end_spec(l: NodeLinks) -> bool {
    &&& l.parent@.len() < u32::MAX
    &&& l.prev_sibling@.len() < u32::MAX
    &&& chains_end_spec(l, true, l.parent@.len())
    &&& chains_end_spec(l, false, l.prev_sibling@.len())
}

/// Whether the links are shown to end: true only where every chain of
/// parent links and of sibling links from a listed node ends within as many
/// steps as there are listed nodes, which makes the links acyclic.
pub fn links_end(links: &NodeLinks) -> (r: bool)
    ensures
        r == links_end_spec(*links),
        r ==> acyclic(*links),
        r ==> forall|n: u32| #[trigger] sibling_index(*links, n) <= u64::MAX,
{
    let lp = links.parent.len();
    let ls = links.prev_sibling.len();
    if lp >= u32::MAX as usize || ls >= u32::MAX as usize {
        return false;
    }
    if !chains_end(links, true, lp) || !chains_end(links, false, ls) {
        return false;
    }
    proof {
        let l = *links;
        assert forall|n: u32| n >= lp implies #[trigger] link_of(l, true, n) is None by {}
        assert forall|n: u32| n >= ls implies #[trigger] link_of(l, false, n) is None by {}
        lemma_step_ranks(l, true, lp as nat, (lp + 1) as nat);
        lemma_step_ranks(l, false, ls as nat, (ls + 1) as nat);
        let rp = step_ranks(l, true, lp as nat, (lp + 1) as nat);
        let rs = step_ranks(l, false, ls as nat, (ls + 1) as nat);
        assert forall|n: u32| #[trigger] parent_of(l, n) is Some implies rank_at(rp, parent_of(l, n)->0) < rank_at(rp, n) by {
            assert(link_of(l, true, n) == parent_of(l, n));
        }
        assert forall|n: u32| #[trigger] prev_of(l, n) is Some implies rank_at(rs, prev_of(l, n)->0) < rank_at(rs, n) by {
            assert(link_of(l, false, n) == prev_of(l, n));
        }
        assert(ranks_ok(l, rp, rs));
        let w = (rp, rs);
        assert(ranks_ok(l, w.0, w.1));
        assert(acyclic(l));
        assert forall|n: u32| #[trigger] sibling_index(l, n) <= u64::MAX by {
            lemma_sibling_index_bound(l, n, rs, (ls + 1) as nat, ls as nat);
        }
    }
    true
}

/// With every sibling chain ending within `fuel` steps, a sibling index is
/// at most the rank of the node in the step ranking, which is below `fuel`.
proof fn lemma_sibling_index_bound(l: NodeLinks, n: u32, rs: Seq<nat>, fuel: nat, len: nat)
    requires
        acyclic(l),
        fuel == len + 1,
        len < u32::MAX,
        rs == step_ranks(l, false, len, fuel),
        forall|m: u32| m < len ==> #[trigger] steps(l, false, m, fuel) is Some,
        forall|m: u32| m >= len ==> #[trigger] link_of(l, false, m) is None,
    ensures
        sibling_index(l, n) <= rank_at(rs, n),
        rank_at(rs, n) <= len,
    decreases rank_at(ranks(l).1, n),
{
    lemma_steps_bound(l, n, fuel);
    match prev_of(l, n) {
        None => {},
        Some(p) => {
            let r = ranks(l);
            assert(ranks_ok(l, r.0, r.1));
            assert(prev_of(l, n) matches Some(pp) ==> rank_at(r.1, pp) < rank_at(r.1, n));
            lemma_sibling_index_bound(l, p, rs, fuel, len);
            assert(link_of(l, false, n) == prev_of(l, n));
            assert(n < len);
            let k = steps(l, false, n, fuel)->0;
            assert(steps(l, false, p, (fuel - 1) as nat) is Some);
            if p < len {
                lemma_steps_more_fuel(l, false, p, (fuel - 1) as nat, fuel);
            }
            assert(rank_at(rs, n) == k);
        },
    }
}

proof fn lemma_steps_bound(l: NodeLinks, n: u32, fuel: nat)
    ensures
        steps(l, false, n, fuel) matches Some(k) ==> k < fuel,
    decreases fuel,
{
    if fuel > 0 {
        match link_of(l, false, n) {
            None => {},
            Some(p) => lemma_steps_bound(l, p, (fuel - 1) as nat),
        }
    }
}

/// The document order of `a` and `b` where the links are shown to end
/// (see `links_end`); `None` otherwise.
pub fn compare_node_order_checked(links: &NodeLinks, a: u32, b: u32) -> (r: Option<i32>)
    ensures
        match r {
            Some(o) => acyclic(*links) && o == document_order(*links, a, b),
            None => !links_end_spec(*links),
        },
{
    if links_end(links) {
        Some(compare_node_order(links, a, b))
    } else {
        None
    }
}

// ---------------------------------------------------------------------------
// The bridge's DOM commands: decoding and replies
// ---------------------------------------------------------------------------

/// The DOM commands of the page's bridge.
#[derive(Debug, Clone, Copy, PartialEq, Eq, Structural)]
pub enum DomOp {
    DocumentNodeId,
    DocumentTitle,
    DocumentUrl,
    DocumentEncoding,
    DocumentElement,
    DocumentDoctype,
    GetElementById,
    QuerySelector,
    QuerySelectorAll,
    QuerySelectorScoped,
    QuerySelectorAllScoped,
    NodeType,
    NodeName,
    TextContent,
    ParentNode,
    FirstChild,
    LastChild,
    NextSibling,
    PrevSibling,
    ChildNodes,
    TagName,
    GetAttribute,
    AttributeNames,
    SetAttribute,
    InnerHtml,
    OuterHtml,
    AppendChild,
    RemoveChild,
    InsertBefore,
    RemoveAttribute,
    SetInnerHtml,
    SetTextContent,
    CreateDocumentFragment,
    CreateElement,
    CreateTextNode,
    CreateCommentNode,
    CreateProcessingInstruction,
    CreateDoctype,
    PiTarget,
    DoctypeName,
    DoctypePublicId,
    ElementChildren,
    HasChildNodes,
    Contains,
    NodeIndex,
    CompareOrder,
    NodeRoot,
    /// Any other command (answered with `null`).
    Unknown,
}

/// The command named `cmd`.
pub open spec fn dom_op_of(cmd: Seq<char>) -> DomOp {
    if cmd == "document_node_id"@ {
        DomOp::DocumentNodeId
    } else     if cmd == "document_title"@ {
        DomOp::DocumentTitle
    } else     if cmd == "document_url"@ {
        DomOp::DocumentUrl
    } else     if cmd == "document_encoding"@ {
        DomOp::DocumentEncoding
    } else     if cmd == "document_element"@ {
        DomOp::DocumentElement
    } else     if cmd == "document_doctype"@ {
        DomOp::DocumentDoctype
    } else     if cmd == "get_element_by_id"@ {
        DomOp::GetElementById
    } else     if cmd == "query_selector"@ {
        DomOp::QuerySelector
    } else     if cmd == "query_selector_all"@ {
        DomOp::QuerySelectorAll
    } else     if cmd == "query_selector_scoped"@ {
        DomOp::QuerySelectorScoped
    } else     if cmd == "query_selector_all_scoped"@ {
        DomOp::QuerySelectorAllScoped
    } else     if cmd == "node_type"@ {
        DomOp::NodeType
    } else     if cmd == "node_name"@ {
        DomOp::NodeName
    } else     if cmd == "text_content"@ {
        DomOp::TextContent
    } else     if cmd == "parent_node"@ {
        DomOp::ParentNode
    } else     if cmd == "first_child"@ {
        DomOp::FirstChild
    } else     if cmd == "last_child"@ {
        DomOp::LastChild
    } else     if cmd == "next_sibling"@ {
        DomOp::NextSibling
    } else     if cmd == "prev_sibling"@ {
        DomOp::PrevSibling
    } else     if cmd == "child_nodes"@ {
        DomOp::ChildNodes
    } else     if cmd == "tag_name"@ {
        DomOp::TagName
    } else     if cmd == "get_attribute"@ {
        DomOp::GetAttribute
    } else     if cmd == "attribute_names"@ {
        DomOp::AttributeNames
    } else     if cmd == "set_attribute"@ {
        DomOp::SetAttribute
    } else     if cmd == "inner_html"@ {
        DomOp::InnerHtml
    } else     if cmd == "outer_html"@ {
        DomOp::OuterHtml
    } else     if cmd == "append_child"@ {
        DomOp::AppendChild
    } else     if cmd == "remove_child"@ {
        DomOp::RemoveChild
    } else     if cmd == "insert_before"@ {
        DomOp::InsertBefore
    } else     if cmd == "remove_attribute"@ {
        DomOp::RemoveAttribute
    } else     if cmd == "set_inner_html"@ {
        DomOp::SetInnerHtml
    } else     if cmd == "set_text_content"@ {
        DomOp::SetTextContent
    } else     if cmd == "create_document_fragment"@ {
        DomOp::CreateDocumentFragment
    } else     if cmd == "create_element"@ {
        DomOp::CreateElement
    } else     if cmd == "create_text_node"@ {
        DomOp::CreateTextNode
    } else     if cmd == "create_comment_node"@ {
        DomOp::CreateCommentNode
    } else     if cmd == "create_processing_instruction"@ {
        DomOp::CreateProcessingInstruction
    } else     if cmd == "create_doctype"@ {
        DomOp::CreateDoctype
    } else     if cmd == "pi_target"@ {
        DomOp::PiTarget
    } else     if cmd == "doctype_name"@ {
        DomOp::DoctypeName
    } else     if cmd == "doctype_public_id"@ {
        DomOp::DoctypePublicId
    } else     if cmd == "element_children"@ {
        DomOp::ElementChildren
    } else     if cmd == "has_child_nodes"@ {
        DomOp::HasChildNodes
    } else     if cmd == "contains"@ {
        DomOp::Contains
    } else     if cmd == "node_index"@ {
        DomOp::NodeIndex
    } else     if cmd == "compare_order"@ {
        DomOp::CompareOrder
    } else     if cmd == "node_root"@ {
        DomOp::NodeRoot
    } else {
        DomOp::Unknown
    }
}

/// The command named `cmd`.
pub fn dom_op(cmd: &str) -> (r: DomOp)
    ensures
        r == dom_op_of(cmd@),
{
    if same_text(cmd, "document_node_id") {
        DomOp::DocumentNodeId
    } else     if same_text(cmd, "document_title") {
        DomOp::DocumentTitle
    } else     if same_text(cmd, "document_url") {
        DomOp::DocumentUrl
    } else     if same_text(cmd, "document_encoding") {
        DomOp::DocumentEncoding
    } else     if same_text(cmd, "document_element") {
        DomOp::DocumentElement
    } else     if same_text(cmd, "document_doctype") {
        DomOp::DocumentDoctype
    } else     if same_text(cmd, "get_element_by_id") {
        DomOp::GetElementById
    } else     if same_text(cmd, "query_selector") {
        DomOp::QuerySelector
    } else     if same_text(cmd, "query_selector_all") {
        DomOp::QuerySelectorAll
    } else     if same_text(cmd, "query_selector_scoped") {
        DomOp::QuerySelectorScoped
    } else     if same_text(cmd, "query_selector_all_scoped") {
        DomOp::QuerySelectorAllScoped
    } else     if same_text(cmd, "node_type") {
        DomOp::NodeType
    } else     if same_text(cmd, "node_name") {
        DomOp::NodeName
    } else     if same_text(cmd, "text_content") {
        DomOp::TextContent
    } else     if same_text(cmd, "parent_node") {
        DomOp::ParentNode
    } else     if same_text(cmd, "first_child") {
        DomOp::FirstChild
    } else     if same_text(cmd, "last_child") {
        DomOp::LastChild
    } else     if same_text(cmd, "next_sibling") {
        DomOp::NextSibling
    } else     if same_text(cmd, "prev_sibling") {
        DomOp::PrevSibling
    } else     if same_text(cmd, "child_nodes") {
        DomOp::ChildNodes
    } else     if same_text(cmd, "tag_name") {
        DomOp::TagName
    } else     if same_text(cmd, "get_attribute") {
        DomOp::GetAttribute
    } else     if same_text(cmd, "attribute_names") {
        DomOp::AttributeNames
    } else     if same_text(cmd, "set_attribute") {
        DomOp::SetAttribute
    } else     if same_text(cmd, "inner_html") {
        DomOp::InnerHtml
    } else     if same_text(cmd, "outer_html") {
        DomOp::OuterHtml
    } else     if same_text(cmd, "append_child") {
        DomOp::AppendChild
    } else     if same_text(cmd, "remove_child") {
        DomOp::RemoveChild
    } else     if same_text(cmd, "insert_before") {
        DomOp::InsertBefore
    } else     if same_text(cmd, "remove_attribute") {
        DomOp::RemoveAttribute
    } else     if same_text(cmd, "set_inner_html") {
        DomOp::SetInnerHtml
    } else     if same_text(cmd, "set_text_content") {
        DomOp::SetTextContent
    } else     if same_text(cmd, "create_document_fragment") {
        DomOp::CreateDocumentFragment
    } else     if same_text(cmd, "create_element") {
        DomOp::CreateElement
    } else     if same_text(cmd, "create_text_node") {
        DomOp::CreateTextNode
    } else     if same_text(cmd, "create_comment_node") {
        DomOp::CreateCommentNode
    } else     if same_text(cmd, "create_processing_instruction") {
        DomOp::CreateProcessingInstruction
    } else     if same_text(cmd, "create_doctype") {
        DomOp::CreateDoctype
    } else     if same_text(cmd, "pi_target") {
        DomOp::PiTarget
    } else     if same_text(cmd, "doctype_name") {
        DomOp::DoctypeName
    } else     if same_text(cmd, "doctype_public_id") {
        DomOp::DoctypePublicId
    } else     if same_text(cmd, "element_children") {
        DomOp::ElementChildren
    } else     if same_text(cmd, "has_child_nodes") {
        DomOp::HasChildNodes
    } else     if same_text(cmd, "contains") {
        DomOp::Contains
    } else     if same_text(cmd, "node_index") {
        DomOp::NodeIndex
    } else     if same_text(cmd, "compare_order") {
        DomOp::CompareOrder
    } else     if same_text(cmd, "node_root") {
        DomOp::NodeRoot
    } else {
        DomOp::Unknown
    }
}

/// A node argument read leniently: its value where it is a `u32` as
/// `str::parse` reads one, 0 otherwise.
pub open spec fn node_arg_of(arg: Seq<char>) -> u32 {
    match parse_unsigned(arg, u32::MAX as nat) {
        Some(n) => n as u32,
        None => 0,
    }
}

/// Reads a node argument leniently.
pub fn node_arg(arg: &str) -> (r: u32)
    ensures
        r == node_arg_of(arg@),
{
    match strict_node_arg(arg) {
        Some(n) => n,
        None => 0,
    }
}

/// Reads a node argument strictly: `None` where it is not a `u32`.
pub fn strict_node_arg(arg: &str) -> (r: Option<u32>)
    ensures
        match r {
            Some(n) => parse_unsigned(arg@, u32::MAX as nat) == Some(n as nat),
            None => parse_unsigned(arg@, u32::MAX as nat) is None,
        },
{
    let cs = chars_of(arg);
    assert(cs@.subrange(0, cs@.len() as int) =~= cs@);
    match parse_unsigned_exec(&cs, 0, cs.len(), u32::MAX as u64) {
        Some(n) => Some(n as u32),
        None => None,
    }
}

/// The name and value of `set_attribute`'s second argument, split at its
/// first NUL char.
pub open spec fn attribute_pair_of(arg: Seq<char>) -> Option<(Seq<char>, Seq<char>)> {
    match crate::text::find_char(arg, '\0', 0) {
        Some(i) => Some((arg.subrange(0, i), arg.subrange(i + 1, arg.len() as int))),
        None => None,
    }
}

/// Splits `set_attribute`'s second argument into name and value.
pub fn attribute_pair(arg: &str) -> (r: Option<(String, String)>)
    ensures
        match r {
            Some((n, v)) => attribute_pair_of(arg@) == Some((n@, v@)),
            None => attribute_pair_of(arg@) is None,
        },
{
    let cs = chars_of(arg);
    proof {
        crate::text::lemma_find_char_props(cs@, '\0', 0);
    }
    match crate::text::find_char_exec(&cs, '\0', 0) {
        Some(i) => Some((string_of(&cs, 0, i), string_of(&cs, i + 1, cs.len()))),
        None => None,
    }
}

/// The selector that finds the element whose `id` is `id`.
pub open spec fn id_selector_of(id: Seq<char>) -> Seq<char> {
    "[id=\""@ + replace_all(replace_all(id, "\\"@, "\\\\"@), "\""@, "\\\""@) + "\"]"@
}

/// The `[id="..."]` selector for `id`, with `\` and `"` escaped.
pub fn id_selector(id: &str) -> (r: String)
    ensures
        r@ == id_selector_of(id@),
{
    let cs = chars_of(id);
    let bs = chars_of("\\");
    let bs2 = chars_of("\\\\");
    let q = chars_of("\"");
    let eq = chars_of("\\\"");
    proof {
        reveal_strlit("\\");
        reveal_strlit("\"");
    }
    let t = replace_all_exec(&cs, &bs, &bs2);
    let u = replace_all_exec(&t, &q, &eq);
    let mut out = string_from("[id=\"");
    crate::text::push_chars(&mut out, &u);
    push_str(&mut out, "\"]");
    out
}

/// The reply naming a node, or `-1` for none.
pub open spec fn node_reply_text(n: Option<u32>) -> Seq<char> {
    match n {
        Some(i) => crate::text::dec(i as nat),
        None => "-1"@,
    }
}

/// The reply naming a node.
pub fn node_reply(n: Option<u32>) -> (r: String)
    ensures
        r@ == node_reply_text(n),
{
    match n {
        Some(i) => {
            let mut s = String::new();
            push_dec(&mut s, i as u64);
            s
        },
        None => string_from("-1"),
    }
}

/// The comma-separated decimal numbers of `ids`.
pub open spec fn ids_items(ids: Seq<u32>) -> Seq<char>
    decreases ids.len(),
{
    if ids.len() == 0 {
        Seq::empty()
    } else if ids.len() == 1 {
        crate::text::dec(ids[0] as nat)
    } else {
        ids_items(ids.drop_last()) + ","@ + crate::text::dec(ids.last() as nat)
    }
}

/// The JSON array of node ids.
pub fn ids_reply(ids: &Vec<u32>) -> (r: String)
    ensures
        r@ == "["@ + ids_items(ids@) + "]"@,
{
    let mut s = string_from("[");
    let mut i: usize = 0;
    while i < ids.len()
        invariant
            i <= ids.len(),
            s@ == "["@ + ids_items(ids@.subrange(0, i as int)),
        decreases ids.len() - i,
    {
        proof {
            let p = ids@.subrange(0, i + 1);
            assert(p.drop_last() =~= ids@.subrange(0, i as int));
            assert(p.last() == ids@[i as int]);
        }
        if i > 0 {
            push_str(&mut s, ",");
        }
        push_dec(&mut s, ids[i] as u64);
        i = i + 1;
    }
    assert(ids@.subrange(0, ids@.len() as int) =~= ids@);
    push_str(&mut s, "]");
    s
}

/// The JSON text of an optional string: `null` or the quoted string.
pub fn opt_text_reply(v: Option<&str>) -> (r: String)
    ensures
        r@ == match v {
            Some(t) => json_quote(t@),
            None => "null"@,
        },
{
    match v {
        Some(t) => crate::text::json_string(t),
        None => string_from("null"),
    }
}

/// The JSON text of a boolean.
pub fn bool_reply(b: bool) -> (r: String)
    ensures
        r@ == if b {
            "true"@
        } else {
            "false"@
        },
{
    if b {
        string_from("true")
    } else {
        string_from("false")
    }
}

/// The kinds of node.
#[derive(Debug, Clone, Copy, PartialEq, Eq, Structural)]
pub enum NodeKind {
    Document,
    Element,
    Text,
    Comment,
    Doctype,
    ProcessingInstruction,
}

/// The DOM `nodeType` of a node kind, or `0` for no node.
pub open spec fn node_type_text(k: Option<NodeKind>) -> Seq<char> {
    match k {
        Some(NodeKind::Document) => "9"@,
        Some(NodeKind::Element) => "1"@,
        Some(NodeKind::Text) => "3"@,
        Some(NodeKind::Comment) => "8"@,
        Some(NodeKind::Doctype) => "10"@,
        Some(NodeKind::ProcessingInstruction) => "7"@,
        None => "0"@,
    }
}

/// Law: each DOM command name selects its own operation, and any other
/// name selects none.
#[verifier::rlimit(100)]
pub proof fn law_dom_commands(cmd: Seq<char>)
    ensures
        cmd == "document_node_id"@ ==> dom_op_of(cmd) == DomOp::DocumentNodeId,
        cmd == "document_title"@ ==> dom_op_of(cmd) == DomOp::DocumentTitle,
        cmd == "document_url"@ ==> dom_op_of(cmd) == DomOp::DocumentUrl,
        cmd == "document_encoding"@ ==> dom_op_of(cmd) == DomOp::DocumentEncoding,
        cmd == "document_element"@ ==> dom_op_of(cmd) == DomOp::DocumentElement,
        cmd == "document_doctype"@ ==> dom_op_of(cmd) == DomOp::DocumentDoctype,
        cmd == "get_element_by_id"@ ==> dom_op_of(cmd) == DomOp::GetElementById,
        cmd == "query_selector"@ ==> dom_op_of(cmd) == DomOp::QuerySelector,
        cmd == "query_selector_all"@ ==> dom_op_of(cmd) == DomOp::QuerySelectorAll,
        cmd == "query_selector_scoped"@ ==> dom_op_of(cmd) == DomOp::QuerySelectorScoped,
        cmd == "query_selector_all_scoped"@ ==> dom_op_of(cmd) == DomOp::QuerySelectorAllScoped,
        cmd == "node_type"@ ==> dom_op_of(cmd) == DomOp::NodeType,
        cmd == "node_name"@ ==> dom_op_of(cmd) == DomOp::NodeName,
        cmd == "text_content"@ ==> dom_op_of(cmd) == DomOp::TextContent,
        cmd == "parent_node"@ ==> dom_op_of(cmd) == DomOp::ParentNode,
        cmd == "first_child"@ ==> dom_op_of(cmd) == DomOp::FirstChild,
        cmd == "last_child"@ ==> dom_op_of(cmd) == DomOp::LastChild,
        cmd == "next_sibling"@ ==> dom_op_of(cmd) == DomOp::NextSibling,
        cmd == "prev_sibling"@ ==> dom_op_of(cmd) == DomOp::PrevSibling,
        cmd == "child_nodes"@ ==> dom_op_of(cmd) == DomOp::ChildNodes,
        cmd == "tag_name"@ ==> dom_op_of(cmd) == DomOp::TagName,
        cmd == "get_attribute"@ ==> dom_op_of(cmd) == DomOp::GetAttribute,
        cmd == "attribute_names"@ ==> dom_op_of(cmd) == DomOp::AttributeNames,
        cmd == "set_attribute"@ ==> dom_op_of(cmd) == DomOp::SetAttribute,
        cmd == "inner_html"@ ==> dom_op_of(cmd) == DomOp::InnerHtml,
        cmd == "outer_html"@ ==> dom_op_of(cmd) == DomOp::OuterHtml,
        cmd == "append_child"@ ==> dom_op_of(cmd) == DomOp::AppendChild,
        cmd == "remove_child"@ ==> dom_op_of(cmd) == DomOp::RemoveChild,
        cmd == "insert_before"@ ==> dom_op_of(cmd) == DomOp::InsertBefore,
        cmd == "remove_attribute"@ ==> dom_op_of(cmd) == DomOp::RemoveAttribute,
        cmd == "set_inner_html"@ ==> dom_op_of(cmd) == DomOp::SetInnerHtml,
        cmd == "set_text_content"@ ==> dom_op_of(cmd) == DomOp::SetTextContent,
        cmd == "create_document_fragment"@ ==> dom_op_of(cmd) == DomOp::CreateDocumentFragment,
        cmd == "create_element"@ ==> dom_op_of(cmd) == DomOp::CreateElement,
        cmd == "create_text_node"@ ==> dom_op_of(cmd) == DomOp::CreateTextNode,
        cmd == "create_comment_node"@ ==> dom_op_of(cmd) == DomOp::CreateCommentNode,
        cmd == "create_processing_instruction"@ ==> dom_op_of(cmd) == DomOp::CreateProcessingInstruction,
        cmd == "create_doctype"@ ==> dom_op_of(cmd) == DomOp::CreateDoctype,
        cmd == "pi_target"@ ==> dom_op_of(cmd) == DomOp::PiTarget,
        cmd == "doctype_name"@ ==> dom_op_of(cmd) == DomOp::DoctypeName,
        cmd == "doctype_public_id"@ ==> dom_op_of(cmd) == DomOp::DoctypePublicId,
        cmd == "element_children"@ ==> dom_op_of(cmd) == DomOp::ElementChildren,
        cmd == "has_child_nodes"@ ==> dom_op_of(cmd) == DomOp::HasChildNodes,
        cmd == "contains"@ ==> dom_op_of(cmd) == DomOp::Contains,
        cmd == "node_index"@ ==> dom_op_of(cmd) == DomOp::NodeIndex,
        cmd == "compare_order"@ ==> dom_op_of(cmd) == DomOp::CompareOrder,
        cmd == "node_root"@ ==> dom_op_of(cmd) == DomOp::NodeRoot,
        cmd != "document_node_id"@ && cmd != "document_title"@ && cmd != "document_url"@ && cmd != "document_encoding"@ && cmd != "document_element"@ && cmd != "document_doctype"@ && cmd != "get_element_by_id"@ && cmd != "query_selector"@ && cmd != "query_selector_all"@ && cmd != "query_selector_scoped"@ && cmd != "query_selector_all_scoped"@ && cmd != "node_type"@ && cmd != "node_name"@ && cmd != "text_content"@ && cmd != "parent_node"@ && cmd != "first_child"@ && cmd != "last_child"@ && cmd != "next_sibling"@ && cmd != "prev_sibling"@ && cmd != "child_nodes"@ && cmd != "tag_name"@ && cmd != "get_attribute"@ && cmd != "attribute_names"@ && cmd != "set_attribute"@ && cmd != "inner_html"@ && cmd != "outer_html"@ && cmd != "append_child"@ && cmd != "remove_child"@ && cmd != "insert_before"@ && cmd != "remove_attribute"@ && cmd != "set_inner_html"@ && cmd != "set_text_content"@ && cmd != "create_document_fragment"@ && cmd != "create_element"@ && cmd != "create_text_node"@ && cmd != "create_comment_node"@ && cmd != "create_processing_instruction"@ && cmd != "create_doctype"@ && cmd != "pi_target"@ && cmd != "doctype_name"@ && cmd != "doctype_public_id"@ && cmd != "element_children"@ && cmd != "has_child_nodes"@ && cmd != "contains"@ && cmd != "node_index"@ && cmd != "compare_order"@ && cmd != "node_root"@ ==> dom_op_of(cmd) == DomOp::Unknown,
{
    reveal_strlit("document_node_id");
    reveal_strlit("document_title");
    reveal_strlit("document_url");
    reveal_strlit("document_encoding");
    reveal_strlit("document_element");
    reveal_strlit("document_doctype");
    reveal_strlit("get_element_by_id");
    reveal_strlit("query_selector");
    reveal_strlit("query_selector_all");
    reveal_strlit("query_selector_scoped");
    reveal_strlit("query_selector_all_scoped");
    reveal_strlit("node_type");
    reveal_strlit("node_name");
    reveal_strlit("text_content");
    reveal_strlit("parent_node");
    reveal_strlit("first_child");
    reveal_strlit("last_child");
    reveal_strlit("next_sibling");
    reveal_strlit("prev_sibling");
    reveal_strlit("child_nodes");
    reveal_strlit("tag_name");
    reveal_strlit("get_attribute");
    reveal_strlit("attribute_names");
    reveal_strlit("set_attribute");
    reveal_strlit("inner_html");
    reveal_strlit("outer_html");
    reveal_strlit("append_child");
    reveal_strlit("remove_child");
    reveal_strlit("insert_before");
    reveal_strlit("remove_attribute");
    reveal_strlit("set_inner_html");
    reveal_strlit("set_text_content");
    reveal_strlit("create_document_fragment");
    reveal_strlit("create_element");
    reveal_strlit("create_text_node");
    reveal_strlit("create_comment_node");
    reveal_strlit("create_processing_instruction");
    reveal_strlit("create_doctype");
    reveal_strlit("pi_target");
    reveal_strlit("doctype_name");
    reveal_strlit("doctype_public_id");
    reveal_strlit("element_children");
    reveal_strlit("has_child_nodes");
    reveal_strlit("contains");
    reveal_strlit("node_index");
    reveal_strlit("compare_order");
    reveal_strlit("node_root");
    assert("document_node_id"@.len() == 16);
    assert("document_title"@.len() == 14);
    assert("document_url"@.len() == 12);
    assert("document_encoding"@.len() == 17);
    assert("document_element"@.len() == 16);
    assert("document_doctype"@.len() == 16);
    assert("get_element_by_id"@.len() == 17);
    assert("query_selector"@.len() == 14);
    assert("query_selector_all"@.len() == 18);
    assert("query_selector_scoped"@.len() == 21);
    assert("query_selector_all_scoped"@.len() == 25);
    assert("node_type"@.len() == 9);
    assert("node_name"@.len() == 9);
    assert("text_content"@.len() == 12);
    assert("parent_node"@.len() == 11);
    assert("first_child"@.len() == 11);
    assert("last_child"@.len() == 10);
    assert("next_sibling"@.len() == 12);
    assert("prev_sibling"@.len() == 12);
    assert("child_nodes"@.len() == 11);
    assert("tag_name"@.len() == 8);
    assert("get_attribute"@.len() == 13);
    assert("attribute_names"@.len() == 15);
    assert("set_attribute"@.len() == 13);
    assert("inner_html"@.len() == 10);
    assert("outer_html"@.len() == 10);
    assert("append_child"@.len() == 12);
    assert("remove_child"@.len() == 12);
    assert("insert_before"@.len() == 13);
    assert("remove_attribute"@.len() == 16);
    assert("set_inner_html"@.len() == 14);
    assert("set_text_content"@.len() == 16);
    assert("create_document_fragment"@.len() == 24);
    assert("create_element"@.len() == 14);
    assert("create_text_node"@.len() == 16);
    assert("create_comment_node"@.len() == 19);
    assert("create_processing_instruction"@.len() == 29);
    assert("create_doctype"@.len() == 14);
    assert("pi_target"@.len() == 9);
    assert("doctype_name"@.len() == 12);
    assert("doctype_public_id"@.len() == 17);
    assert("element_children"@.len() == 16);
    assert("has_child_nodes"@.len() == 15);
    assert("contains"@.len() == 8);
    assert("node_index"@.len() == 10);
    assert("compare_order"@.len() == 13);
    assert("node_root"@.len() == 9);
    assert("document_node_id"@[9] != "document_element"@[9]);
    assert("document_node_id"@[9] != "document_doctype"@[9]);
    assert("document_node_id"@[0] != "remove_attribute"@[0]);
    assert("document_node_id"@[0] != "set_text_content"@[0]);
    assert("document_node_id"@[0] != "create_text_node"@[0]);
    assert("document_node_id"@[0] != "element_children"@[0]);
    assert("document_title"@[0] != "query_selector"@[0]);
    assert("document_title"@[0] != "set_inner_html"@[0]);
    assert("document_title"@[0] != "create_element"@[0]);
    assert("document_title"@[0] != "create_doctype"@[0]);
    assert("document_url"@[0] != "text_content"@[0]);
    assert("document_url"@[0] != "next_sibling"@[0]);
    assert("document_url"@[0] != "prev_sibling"@[0]);
    assert("document_url"@[0] != "append_child"@[0]);
    assert("document_url"@[0] != "remove_child"@[0]);
    assert("document_url"@[3] != "doctype_name"@[3]);
    assert("document_encoding"@[0] != "get_element_by_id"@[0]);
    assert("document_encoding"@[3] != "doctype_public_id"@[3]);
    assert("document_element"@[9] != "document_doctype"@[9]);
    assert("document_element"@[0] != "remove_attribute"@[0]);
    assert("document_element"@[0] != "set_text_content"@[0]);
    assert("document_element"@[0] != "create_text_node"@[0]);
    assert("document_element"@[0] != "element_children"@[0]);
    assert("document_doctype"@[0] != "remove_attribute"@[0]);
    assert("document_doctype"@[0] != "set_text_content"@[0]);
    assert("document_doctype"@[0] != "create_text_node"@[0]);
    assert("document_doctype"@[0] != "element_children"@[0]);
    assert("get_element_by_id"@[0] != "doctype_public_id"@[0]);
    assert("query_selector"@[0] != "set_inner_html"@[0]);
    assert("query_selector"@[0] != "create_element"@[0]);
    assert("query_selector"@[0] != "create_doctype"@[0]);
    assert("node_type"@[5] != "node_name"@[5]);
    assert("node_type"@[0] != "pi_target"@[0]);
    assert("node_type"@[5] != "node_root"@[5]);
    assert("node_name"@[0] != "pi_target"@[0]);
    assert("node_name"@[5] != "node_root"@[5]);
    assert("text_content"@[0] != "next_sibling"@[0]);
    assert("text_content"@[0] != "prev_sibling"@[0]);
    assert("text_content"@[0] != "append_child"@[0]);
    assert("text_content"@[0] != "remove_child"@[0]);
    assert("text_content"@[0] != "doctype_name"@[0]);
    assert("parent_node"@[0] != "first_child"@[0]);
    assert("parent_node"@[0] != "child_nodes"@[0]);
    assert("first_child"@[0] != "child_nodes"@[0]);
    assert("last_child"@[0] != "inner_html"@[0]);
    assert("last_child"@[0] != "outer_html"@[0]);
    assert("last_child"@[0] != "node_index"@[0]);
    assert("next_sibling"@[0] != "prev_sibling"@[0]);
    assert("next_sibling"@[0] != "append_child"@[0]);
    assert("next_sibling"@[0] != "remove_child"@[0]);
    assert("next_sibling"@[0] != "doctype_name"@[0]);
    assert("prev_sibling"@[0] != "append_child"@[0]);
    assert("prev_sibling"@[0] != "remove_child"@[0]);
    assert("prev_sibling"@[0] != "doctype_name"@[0]);
    assert("tag_name"@[0] != "contains"@[0]);
    assert("get_attribute"@[0] != "set_attribute"@[0]);
    assert("get_attribute"@[0] != "insert_before"@[0]);
    assert("get_attribute"@[0] != "compare_order"@[0]);
    assert("attribute_names"@[0] != "has_child_nodes"@[0]);
    assert("set_attribute"@[0] != "insert_before"@[0]);
    assert("set_attribute"@[0] != "compare_order"@[0]);
    assert("inner_html"@[0] != "outer_html"@[0]);
    assert("inner_html"@[0] != "node_index"@[0]);
    assert("outer_html"@[0] != "node_index"@[0]);
    assert("append_child"@[0] != "remove_child"@[0]);
    assert("append_child"@[0] != "doctype_name"@[0]);
    assert("remove_child"@[0] != "doctype_name"@[0]);
    assert("insert_before"@[0] != "compare_order"@[0]);
    assert("remove_attribute"@[0] != "set_text_content"@[0]);
    assert("remove_attribute"@[0] != "create_text_node"@[0]);
    assert("remove_attribute"@[0] != "element_children"@[0]);
    assert("set_inner_html"@[0] != "create_element"@[0]);
    assert("set_inner_html"@[0] != "create_doctype"@[0]);
    assert("set_text_content"@[0] != "create_text_node"@[0]);
    assert("set_text_content"@[0] != "element_children"@[0]);
    assert("create_element"@[7] != "create_doctype"@[7]);
    assert("create_text_node"@[0] != "element_children"@[0]);
    assert("pi_target"@[0] != "node_root"@[0]);
}

/// Law: node types are the DOM's numbers: element 1, text 3, processing
/// instruction 7, comment 8, document 9, doctype 10, and 0 for no node.
pub proof fn law_node_type_numbers()
    ensures
        node_type_text(Some(NodeKind::Element)) == "1"@,
        node_type_text(Some(NodeKind::Text)) == "3"@,
        node_type_text(Some(NodeKind::ProcessingInstruction)) == "7"@,
        node_type_text(Some(NodeKind::Comment)) == "8"@,
        node_type_text(Some(NodeKind::Document)) == "9"@,
        node_type_text(Some(NodeKind::Doctype)) == "10"@,
        node_type_text(None) == "0"@,
{
}

/// Law: node names as the DOM gives them: an element's name in ASCII upper
/// case, `#document`, `#text` and `#comment` for those kinds, and a
/// doctype's or processing instruction's own name.
pub proof fn law_node_names(k: NodeKind, name: Seq<char>)
    ensures
        k == NodeKind::Element ==> node_name_text(k, name).len() == name.len() && forall|i: int|
            0 <= i < name.len() ==> #[trigger] node_name_text(k, name)[i] == crate::text::ascii_upper(name[i]),
        k == NodeKind::Document ==> node_name_text(k, name) == "#document"@,
        k == NodeKind::Text ==> node_name_text(k, name) == "#text"@,
        k == NodeKind::Comment ==> node_name_text(k, name) == "#comment"@,
        k == NodeKind::Doctype || k == NodeKind::ProcessingInstruction ==> node_name_text(k, name) == name,
{
}

/// The `node_type` reply.
pub fn node_type_reply(k: Option<NodeKind>) -> (r: String)
    ensures
        r@ == node_type_text(k),
{
    match k {
        Some(NodeKind::Document) => string_from("9"),
        Some(NodeKind::Element) => string_from("1"),
        Some(NodeKind::Text) => string_from("3"),
        Some(NodeKind::Comment) => string_from("8"),
        Some(NodeKind::Doctype) => string_from("10"),
        Some(NodeKind::ProcessingInstruction) => string_from("7"),
        None => string_from("0"),
    }
}

/// The DOM `nodeName` of a node of kind `k` whose name (tag name, doctype
/// name or target) is `name`: element names in ASCII upper case, fixed
/// names for documents, text and comments.
pub open spec fn node_name_text(k: NodeKind, name: Seq<char>) -> Seq<char> {
    match k {
        NodeKind::Document => "#document"@,
        NodeKind::Element => name.map_values(|c: char| crate::text::ascii_upper(c)),
        NodeKind::Text => "#text"@,
        NodeKind::Comment => "#comment"@,
        NodeKind::Doctype => name,
        NodeKind::ProcessingInstruction => name,
    }
}

/// The `node_name` reply for a node (the empty name where there is none).
pub fn node_name_reply(node: Option<(NodeKind, &str)>) -> (r: String)
    ensures
        r@ == json_quote(match node {
            Some((k, name)) => node_name_text(k, name@),
            None => Seq::empty(),
        }),
{
    let name: String = match node {
        Some((NodeKind::Document, _)) => string_from("#document"),
        Some((NodeKind::Element, n)) => {
            let cs = chars_of(n);
            let up = crate::text::to_ascii_upper(&cs);
            let mut s = String::new();
            crate::text::push_chars(&mut s, &up);
            s
        },
        Some((NodeKind::Text, _)) => string_from("#text"),
        Some((NodeKind::Comment, _)) => string_from("#comment"),
        Some((NodeKind::Doctype, n)) => string_from(n),
        Some((NodeKind::ProcessingInstruction, n)) => string_from(n),
        None => String::new(),
    };
    crate::text::json_string(name.as_str())
}


/// The `tagName` of a node: its name in ASCII upper case where it is an
/// element, empty otherwise.
pub open spec fn tag_name_text(node: Option<(NodeKind, Seq<char>)>) -> Seq<char> {
    match node {
        Some((NodeKind::Element, name)) => name.map_values(|c: char| crate::text::ascii_upper(c)),
        _ => Seq::empty(),
    }
}

/// The reply to `tag_name`: the node's `tagName` as a JSON string.
pub fn tag_name_reply(node: Option<(NodeKind, &str)>) -> (r: String)
    ensures
        r@ == json_quote(tag_name_text(match node {
            Some((k, name)) => Some((k, name@)),
            None => None,
        })),
{
    match node {
        Some((NodeKind::Element, name)) => {
            let up = crate::text::to_ascii_upper(&chars_of(name));
            let t = string_of(&up, 0, up.len());
            proof {
                assert(up@.subrange(0, up@.len() as int) =~= up@);
            }
            crate::text::json_string(t.as_str())
        },
        _ => {
            proof {
                reveal_strlit("");
            }
            crate::text::json_string("")
        },
    }
}

/// A child is the document's `<html>` element.
pub open spec fn is_html_element(c: (u32, Option<NodeKind>, Seq<char>)) -> bool {
    c.1 == Some(NodeKind::Element) && c.2 == "html"@
}

/// The views of a list of children: id, kind and name.
pub open spec fn children_view(v: Seq<(u32, Option<NodeKind>, String)>) -> Seq<(u32, Option<NodeKind>, Seq<char>)> {
    v.map_values(|c: (u32, Option<NodeKind>, String)| (c.0, c.1, c.2@))
}

/// The document element among the document's `children` (id, kind and
/// name, in order): the first element named `html`, if any.
pub fn document_element(children: &Vec<(u32, Option<NodeKind>, String)>) -> (r: Option<u32>)
    ensures
        match r {
            Some(id) => exists|i: int|
                0 <= i < children@.len() && #[trigger] is_html_element(children_view(children@)[i])
                    && children@[i].0 == id && forall|j: int| 0 <= j < i ==> !is_html_element(
                    #[trigger] children_view(children@)[j],
                ),
            None => forall|i: int| 0 <= i < children@.len() ==> !is_html_element(#[trigger] children_view(children@)[i]),
        },
{
    let mut i: usize = 0;
    while i < children.len()
        invariant
            i <= children.len(),
            forall|j: int| 0 <= j < i ==> !is_html_element(#[trigger] children_view(children@)[j]),
        decreases children.len() - i,
    {
        let c = &children[i];
        let is_html = c.1 == Some(NodeKind::Element) && same_text(c.2.as_str(), "html");
        assert(children_view(children@)[i as int] == (c.0, c.1, c.2@));
        if is_html {
            assert(is_html_element(children_view(children@)[i as int]));
            return Some(c.0);
        }
        i = i + 1;
    }
    None
}

/// The ids of the elements among `children` (id and kind), in order.
pub open spec fn element_ids(children: Seq<(u32, Option<NodeKind>)>) -> Seq<u32>
    decreases children.len(),
{
    if children.len() == 0 {
        Seq::empty()
    } else {
        let rest = element_ids(children.drop_last());
        if children.last().1 == Some(NodeKind::Element) {
            rest.push(children.last().0)
        } else {
            rest
        }
    }
}

/// The element children among `children` (id and kind), in order.
pub fn element_children(children: &Vec<(u32, Option<NodeKind>)>) -> (r: Vec<u32>)
    ensures
        r@ == element_ids(children@),
{
    let mut r: Vec<u32> = Vec::new();
    let mut i: usize = 0;
    while i < children.len()
        invariant
            i <= children.len(),
            r@ == element_ids(children@.take(i as int)),
        decreases children.len() - i,
    {
        proof {
            assert(children@.take(i + 1).drop_last() =~= children@.take(i as int));
            assert(children@.take(i + 1).last() == children@[i as int]);
        }
        if children[i].1 == Some(NodeKind::Element) {
            r.push(children[i].0);
        }
        i = i + 1;
    }
    assert(children@.take(children@.len() as int) =~= children@);
    r
}

/// The element found by id where it is still in the document `doc`: the
/// document is one of its ancestors.
pub fn live_element(links: &NodeLinks, found: Option<u32>, doc: u32) -> (r: Option<u32>)
    requires
        acyclic(*links),
    ensures
        r == match found {
            Some(e) => if lineage(*links, e).drop_last().contains(doc) {
                Some(e)
            } else {
                None
            },
            None => None,
        },
{
    match found {
        Some(e) => {
            let line = node_ancestors_root_first(links, e);
            proof {
                lemma_lineage(*links, e);
            }
            let mut i: usize = 0;
            while i + 1 < line.len()
                invariant
                    acyclic(*links),
                    found == Some(e),
                    line@ == lineage(*links, e),
                    line@.len() >= 1,
                    i + 1 <= line@.len(),
                    forall|j: int| 0 <= j < i ==> line@[j] != doc,
                decreases line.len() - i,
            {
                if line[i] == doc {
                    assert(line@.drop_last()[i as int] == doc);
                    assert(line@.drop_last().contains(doc));
                    return Some(e);
                }
                i = i + 1;
            }
            proof {
                assert forall|j: int| 0 <= j < line@.drop_last().len() implies line@.drop_last()[j] != doc by {
                    assert(line@.drop_last()[j] == line@[j]);
                }
            }
            None
        },
        None => None,
    }
}

} // verus!
