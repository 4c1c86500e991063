//! Ordering of strings as `str::cmp` orders them, and a stable sort of
//! items by a rank and a name.

use vstd::prelude::*;
use crate::text::chars_of;

verus! {

/// `a < b` in the order of `str`: code point by code point, a proper
/// prefix first. (UTF-8 keeps the order of code points, so this is the
/// byte order that `str::cmp` uses.)
pub open spec fn text_lt(a: Seq<char>, b: Seq<char>) -> bool
    decreases a.len(),
{
    if b.len() == 0 {
        false
    } else if a.len() == 0 {
        true
    } else if a[0] != b[0] {
        a[0] < b[0]
    } else {
        text_lt(a.drop_first(), b.drop_first())
    }
}

/// No string is before itself.
pub proof fn lemma_text_lt_irreflexive(a: Seq<char>)
    ensures
        !text_lt(a, a),
    decreases a.len(),
{
    if a.len() > 0 {
        lemma_text_lt_irreflexive(a.drop_first());
    }
}

/// The order of strings is transitive.
pub proof fn lemma_text_lt_transitive(a: Seq<char>, b: Seq<char>, c: Seq<char>)
    requires
        text_lt(a, b),
        text_lt(b, c),
    ensures
        text_lt(a, c),
    decreases a.len(),
{
    if a.len() > 0 && b.len() > 0 && c.len() > 0 && a[0] == b[0] && b[0] == c[0] {
        lemma_text_lt_transitive(a.drop_first(), b.drop_first(), c.drop_first());
    }
}

/// Of two different strings, one is before the other.
pub proof fn lemma_text_lt_total(a: Seq<char>, b: Seq<char>)
    ensures
        a == b || text_lt(a, b) || text_lt(b, a),
    decreases a.len(),
{
    if a.len() == 0 && b.len() == 0 {
        assert(a =~= b);
    } else if a.len() == 0 || b.len() == 0 {
    } else if a[0] != b[0] {
    } else {
        lemma_text_lt_total(a.drop_first(), b.drop_first());
        if a.drop_first() == b.drop_first() {
            assert(a =~= seq![a[0]] + a.drop_first());
            assert(b =~= seq![b[0]] + b.drop_first());
        }
    }
}

proof fn lemma_text_lt_skip(a: Seq<char>, b: Seq<char>, i: int)
    requires
        0 <= i <= a.len(),
        i <= b.len(),
        forall|k: int| 0 <= k < i ==> a[k] == b[k],
    ensures
        text_lt(a, b) == text_lt(a.skip(i), b.skip(i)),
    decreases i,
{
    if i > 0 {
        assert(a[0] == b[0]);
        assert forall|k: int| 0 <= k < i - 1 implies a.drop_first()[k] == b.drop_first()[k] by {
            assert(a[k + 1] == b[k + 1]);
        }
        assert(a.drop_first().skip(i - 1) =~= a.skip(i));
        assert(b.drop_first().skip(i - 1) =~= b.skip(i));
        lemma_text_lt_skip(a.drop_first(), b.drop_first(), i - 1);
    } else {
        assert(a.skip(0) =~= a);
        assert(b.skip(0) =~= b);
    }
}

/// `a < b` for two string slices, as `str` orders them.
pub fn str_lt(a: &str, b: &str) -> (r: bool)
    ensures
        r == text_lt(a@, b@),
{
    let x = chars_of(a);
    let y = chars_of(b);
    let mut i: usize = 0;
    while i < x.len() && i < y.len() && x[i] == y[i]
        invariant
            i <= x@.len(),
            i <= y@.len(),
            x@ == a@,
            y@ == b@,
            forall|k: int| 0 <= k < i ==> x@[k] == y@[k],
        decreases x@.len() - i,
    {
        i += 1;
    }
    proof {
        lemma_text_lt_skip(x@, y@, i as int);
    }
    if i == y.len() {
        false
    } else if i == x.len() {
        true
    } else {
        x[i] < y[i]
    }
}

/// Item `i` comes before item `j`: by rank, then by name, then by place.
pub open spec fn key_lt(ranks: Seq<u8>, names: Seq<Seq<char>>, i: int, j: int) -> bool {
    ||| ranks[i] < ranks[j]
    ||| ranks[i] == ranks[j] && text_lt(names[i], names[j])
    ||| ranks[i] == ranks[j] && names[i] == names[j] && i < j
}

/// `order` lists each item `0..ranks.len()` once, in the order of
/// `key_lt`: what a stable sort by rank and name gives.
pub open spec fn sorted_order(ranks: Seq<u8>, names: Seq<Seq<char>>, order: Seq<usize>) -> bool {
    &&& order.len() == ranks.len()
    &&& forall|k: int| 0 <= k < order.len() ==> order[k] < ranks.len()
    &&& forall|x: usize| x < ranks.len() ==> #[trigger] order.contains(x)
    &&& forall|a: int, b: int| 0 <= a < b < order.len() ==> key_lt(ranks, names, #[trigger] order[a] as int, #[trigger] order[b] as int)
}

proof fn lemma_key_lt_transitive(ranks: Seq<u8>, names: Seq<Seq<char>>, i: int, j: int, k: int)
    requires
        key_lt(ranks, names, i, j),
        key_lt(ranks, names, j, k),
    ensures
        key_lt(ranks, names, i, k),
{
    if ranks[i] == ranks[j] && ranks[j] == ranks[k] {
        if text_lt(names[i], names[j]) && text_lt(names[j], names[k]) {
            lemma_text_lt_transitive(names[i], names[j], names[k]);
        }
    }
}

proof fn lemma_key_lt_total(ranks: Seq<u8>, names: Seq<Seq<char>>, i: int, j: int)
    requires
        i != j,
    ensures
        key_lt(ranks, names, i, j) || key_lt(ranks, names, j, i),
{
    lemma_text_lt_total(names[i], names[j]);
}

/// In a sorted order, ranks never go down, and within a rank names never
/// go down either: lower ranks come first, and within a rank the names are
/// in order.
pub proof fn lemma_sorted_order_monotone(ranks: Seq<u8>, names: Seq<Seq<char>>, order: Seq<usize>, a: int, b: int)
    requires
        sorted_order(ranks, names, order),
        0 <= a < b < order.len(),
    ensures
        ranks[order[a] as int] <= ranks[order[b] as int],
        ranks[order[a] as int] == ranks[order[b] as int] ==> !text_lt(names[order[b] as int], names[order[a] as int]),
{
    let i = order[a] as int;
    let j = order[b] as int;
    assert(key_lt(ranks, names, i, j));
    if ranks[i] == ranks[j] && text_lt(names[j], names[i]) {
        if text_lt(names[i], names[j]) {
            lemma_text_lt_transitive(names[i], names[j], names[i]);
            lemma_text_lt_irreflexive(names[i]);
        } else {
            lemma_text_lt_irreflexive(names[i]);
        }
    }
}

proof fn lemma_key_lt_asymmetric(ranks: Seq<u8>, names: Seq<Seq<char>>, i: int, j: int)
    requires
        key_lt(ranks, names, i, j),
    ensures
        !key_lt(ranks, names, j, i),
{
    if ranks[i] == ranks[j] {
        lemma_text_lt_irreflexive(names[i]);
        lemma_text_lt_irreflexive(names[j]);
        if text_lt(names[i], names[j]) && text_lt(names[j], names[i]) {
            lemma_text_lt_transitive(names[i], names[j], names[i]);
        }
    }
}

proof fn lemma_increasing_unique(ranks: Seq<u8>, names: Seq<Seq<char>>, s: Seq<usize>, t: Seq<usize>)
    requires
        forall|a: int, b: int| 0 <= a < b < s.len() ==> key_lt(ranks, names, #[trigger] s[a] as int, #[trigger] s[b] as int),
        forall|a: int, b: int| 0 <= a < b < t.len() ==> key_lt(ranks, names, #[trigger] t[a] as int, #[trigger] t[b] as int),
        forall|x: usize| s.contains(x) <==> t.contains(x),
        s.len() == t.len(),
    ensures
        s == t,
    decreases s.len(),
{
    if s.len() == 0 {
        assert(s =~= t);
    } else {
        assert(s.contains(s[0]));
        let j = choose|j: int| 0 <= j < t.len() && t[j] == s[0];
        if j > 0 {
            assert(t.contains(t[0]));
            let i = choose|i: int| 0 <= i < s.len() && s[i] == t[0];
            assert(key_lt(ranks, names, t[0] as int, t[j] as int));
            lemma_key_lt_irreflexive(ranks, names, t[0] as int);
            assert(i != 0);
            assert(key_lt(ranks, names, s[0] as int, s[i] as int));
            lemma_key_lt_asymmetric(ranks, names, t[0] as int, t[j] as int);
        }
        assert(s[0] == t[0]);
        let s1 = s.drop_first();
        let t1 = t.drop_first();
        assert forall|x: usize| s1.contains(x) <==> t1.contains(x) by {
            if s1.contains(x) {
                let k = choose|k: int| 0 <= k < s1.len() && s1[k] == x;
                assert(s[k + 1] == x);
                assert(key_lt(ranks, names, s[0] as int, s[k + 1] as int));
                lemma_key_lt_irreflexive(ranks, names, x as int);
                assert(s.contains(x));
                let m = choose|m: int| 0 <= m < t.len() && t[m] == x;
                assert(m != 0);
                assert(t1[m - 1] == x);
            }
            if t1.contains(x) {
                let k = choose|k: int| 0 <= k < t1.len() && t1[k] == x;
                assert(t[k + 1] == x);
                assert(key_lt(ranks, names, t[0] as int, t[k + 1] as int));
                lemma_key_lt_irreflexive(ranks, names, x as int);
                assert(t.contains(x));
                let m = choose|m: int| 0 <= m < s.len() && s[m] == x;
                assert(m != 0);
                assert(s1[m - 1] == x);
            }
        }
        assert forall|a: int, b: int| 0 <= a < b < s1.len() implies key_lt(ranks, names, #[trigger] s1[a] as int, #[trigger] s1[b] as int) by {
            assert(s1[a] == s[a + 1] && s1[b] == s[b + 1]);
        }
        assert forall|a: int, b: int| 0 <= a < b < t1.len() implies key_lt(ranks, names, #[trigger] t1[a] as int, #[trigger] t1[b] as int) by {
            assert(t1[a] == t[a + 1] && t1[b] == t[b + 1]);
        }
        lemma_increasing_unique(ranks, names, s1, t1);
        assert(s =~= seq![s[0]] + s1);
        assert(t =~= seq![t[0]] + t1);
    }
}

proof fn lemma_key_lt_irreflexive(ranks: Seq<u8>, names: Seq<Seq<char>>, i: int)
    ensures
        !key_lt(ranks, names, i, i),
{
    lemma_text_lt_irreflexive(names[i]);
}

/// The order a stable sort gives is determined: two orders that each list
/// every item once, sorted by rank, then name, then place, are the same.
pub proof fn lemma_sorted_order_unique(ranks: Seq<u8>, names: Seq<Seq<char>>, s: Seq<usize>, t: Seq<usize>)
    requires
        sorted_order(ranks, names, s),
        sorted_order(ranks, names, t),
    ensures
        s == t,
{
    assert forall|x: usize| s.contains(x) <==> t.contains(x) by {
        if s.contains(x) {
            let k = choose|k: int| 0 <= k < s.len() && s[k] == x;
            assert(x < ranks.len());
        }
        if t.contains(x) {
            let k = choose|k: int| 0 <= k < t.len() && t[k] == x;
            assert(x < ranks.len());
        }
    }
    lemma_increasing_unique(ranks, names, s, t);
}

/// The order in which a stable sort by rank, then by name, puts the items
/// whose ranks and names are given.
pub fn ranked_order(ranks: &Vec<u8>, names: &Vec<String>) -> (order: Vec<usize>)
    requires
        ranks@.len() == names@.len(),
    ensures
        sorted_order(ranks@, names@.map_values(|s: String| s@), order@),
{
    let ghost nv = names@.map_values(|s: String| s@);
    let mut order: Vec<usize> = Vec::new();
    let mut x: usize = 0;
    while x < ranks.len()
        invariant
            x <= ranks@.len(),
            ranks@.len() == names@.len(),
            nv == names@.map_values(|s: String| s@),
            order@.len() == x,
            forall|k: int| 0 <= k < order@.len() ==> order@[k] < x,
            forall|y: usize| y < x ==> #[trigger] order@.contains(y),
            forall|a: int, b: int| 0 <= a < b < order@.len() ==> key_lt(ranks@, nv, #[trigger] order@[a] as int, #[trigger] order@[b] as int),
        decreases ranks@.len() - x,
    {
        let mut p: usize = 0;
        loop
            invariant
                p <= order@.len(),
                x < ranks@.len(),
                ranks@.len() == names@.len(),
                nv == names@.map_values(|s: String| s@),
                forall|k: int| 0 <= k < order@.len() ==> order@[k] < x,
                forall|q: int| 0 <= q < p ==> key_lt(ranks@, nv, #[trigger] order@[q] as int, x as int),
            ensures
                p <= order@.len(),
                forall|q: int| 0 <= q < p ==> key_lt(ranks@, nv, #[trigger] order@[q] as int, x as int),
                p < order@.len() ==> key_lt(ranks@, nv, x as int, order@[p as int] as int),
            decreases order@.len() - p,
        {
            if p == order.len() {
                break;
            }
            let o = order[p];
            let before = if ranks[x] != ranks[o] {
                ranks[x] < ranks[o]
            } else if str_lt(names[x].as_str(), names[o].as_str()) {
                true
            } else {
                str_lt(names[o].as_str(), names[x].as_str()) == false && x < o
            };
            proof {
                lemma_text_lt_total(nv[x as int], nv[o as int]);
                assert(before == key_lt(ranks@, nv, x as int, o as int)) by {
                    if ranks@[x as int] == ranks@[o as int] && !text_lt(nv[x as int], nv[o as int]) && !text_lt(nv[o as int], nv[x as int]) {
                        assert(nv[x as int] == nv[o as int]);
                    }
                    lemma_text_lt_irreflexive(nv[o as int]);
                }
            }
            if before {
                break;
            }
            proof {
                lemma_key_lt_total(ranks@, nv, x as int, o as int);
            }
            p += 1;
        }
        let ghost old_order = order@;
        order.insert(p, x);
        proof {
            assert(order@ == old_order.insert(p as int, x));
            assert forall|a: int, b: int| 0 <= a < b < order@.len() implies key_lt(ranks@, nv, #[trigger] order@[a] as int, #[trigger] order@[b] as int) by {
                if b == p {
                    assert(order@[a] == old_order[a]);
                } else if a == p {
                    assert(order@[b] == old_order[b - 1]);
                    if b - 1 > p {
                        assert(key_lt(ranks@, nv, old_order[p as int] as int, old_order[b - 1] as int));
                        lemma_key_lt_transitive(ranks@, nv, x as int, old_order[p as int] as int, old_order[b - 1] as int);
                    }
                } else if a < p && b < p {
                    assert(order@[a] == old_order[a] && order@[b] == old_order[b]);
                } else if a < p {
                    assert(order@[a] == old_order[a] && order@[b] == old_order[b - 1]);
                } else {
                    assert(order@[a] == old_order[a - 1] && order@[b] == old_order[b - 1]);
                }
            }
            assert forall|y: usize| y < x + 1 implies #[trigger] order@.contains(y) by {
                if y == x {
                    assert(order@[p as int] == x);
                } else {
                    assert(old_order.contains(y));
                    let k = choose|k: int| 0 <= k < old_order.len() && old_order[k] == y;
                    if k < p {
                        assert(order@[k] == y);
                    } else {
                        assert(order@[k + 1] == y);
                    }
                }
            }
        }
        x += 1;
    }
    order
}

/// `order` lists each item `0..ranks.len()` once, by rank, items of one
/// rank in the order they came in: what a stable sort by rank gives.
pub open spec fn stable_by_rank(ranks: Seq<u8>, order: Seq<usize>) -> bool {
    &&& order.len() == ranks.len()
    &&& forall|k: int| 0 <= k < order.len() ==> order[k] < ranks.len()
    &&& forall|x: usize| x < ranks.len() ==> #[trigger] order.contains(x)
    &&& forall|a: int, b: int| 0 <= a < b < order.len() ==> {
        let i = #[trigger] order[a];
        let j = #[trigger] order[b];
        ranks[i as int] < ranks[j as int] || (ranks[i as int] == ranks[j as int] && i < j)
    }
}

/// A stable sort by rank gives one order only: two orders that each list
/// every item once, by rank, items of one rank in the order they came in,
/// are the same.
pub proof fn lemma_stable_by_rank_unique(ranks: Seq<u8>, s: Seq<usize>, t: Seq<usize>)
    requires
        stable_by_rank(ranks, s),
        stable_by_rank(ranks, t),
    ensures
        s == t,
{
    let names = Seq::new(ranks.len(), |i: int| Seq::<char>::empty());
    assert forall|a: int, b: int| 0 <= a < b < s.len() implies key_lt(ranks, names, #[trigger] s[a] as int, #[trigger] s[b] as int) by {
        assert(names[s[a] as int] == names[s[b] as int]);
    }
    assert forall|a: int, b: int| 0 <= a < b < t.len() implies key_lt(ranks, names, #[trigger] t[a] as int, #[trigger] t[b] as int) by {
        assert(names[t[a] as int] == names[t[b] as int]);
    }
    lemma_sorted_order_unique(ranks, names, s, t);
}

/// The order in which a stable sort by rank alone puts the items whose
/// ranks are given.
pub fn rank_order(ranks: &Vec<u8>) -> (order: Vec<usize>)
    ensures
        stable_by_rank(ranks@, order@),
{
    let mut names: Vec<String> = Vec::new();
    let mut k: usize = 0;
    while k < ranks.len()
        invariant
            k <= ranks@.len(),
            names@.len() == k,
            forall|q: int| 0 <= q < k ==> (#[trigger] names@[q])@ == Seq::<char>::empty(),
        decreases ranks@.len() - k,
    {
        names.push(String::new());
        k += 1;
    }
    let order = ranked_order(ranks, &names);
    proof {
        let nv = names@.map_values(|s: String| s@);
        assert forall|a: int, b: int| 0 <= a < b < order@.len() implies {
            let i = #[trigger] order@[a];
            let j = #[trigger] order@[b];
            ranks@[i as int] < ranks@[j as int] || (ranks@[i as int] == ranks@[j as int] && i < j)
        } by {
            let i = order@[a] as int;
            let j = order@[b] as int;
            assert(key_lt(ranks@, nv, i, j));
            assert(nv[i] =~= Seq::<char>::empty());
            assert(nv[j] =~= Seq::<char>::empty());
        }
    }
    order
}

} // verus!
