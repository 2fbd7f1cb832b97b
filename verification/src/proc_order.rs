//! The order of a process listing sorted by an integer field (memory or
//! pid) or by name: a stable sort, so processes with equal keys keep the
//! order they were listed in, cut to the first `limit` entries.

use vstd::prelude::*;
use crate::text::chars_of;

verus! {

/// In a stable sort by `keys` (descending when `descending`), the entry at
/// position `a` comes before the one at position `b`.
pub open spec fn precedes(keys: Seq<u64>, descending: bool, a: int, b: int) -> bool {
    if descending {
        keys[a] > keys[b] || (keys[a] == keys[b] && a < b)
    } else {
        keys[a] < keys[b] || (keys[a] == keys[b] && a < b)
    }
}

/// `order` lists positions of `keys`, each earlier one before each later
/// one in the stable sort (so none twice).
pub open spec fn key_ordered(keys: Seq<u64>, descending: bool, order: Seq<usize>) -> bool {
    &&& forall|i: int| 0 <= i < order.len() ==> #[trigger] order[i] < keys.len()
    &&& forall|i: int, j: int|
        0 <= i < j < order.len() ==> precedes(keys, descending, #[trigger] order[i] as int, #[trigger] order[j] as int)
}

/// `key` sorts strictly after `other`.
pub open spec fn sorts_after(descending: bool, key: u64, other: u64) -> bool {
    if descending { key < other } else { key > other }
}

fn sorts_after_exec(descending: bool, key: u64, other: u64) -> (b: bool)
    ensures
        b == sorts_after(descending, key, other),
{
    if descending { key < other } else { key > other }
}

/// The positions of `keys` in stably sorted order (descending when
/// `descending`), the first `limit` of them: every position left out comes
/// after every position kept.
pub fn key_order(keys: &Vec<u64>, descending: bool, limit: usize) -> (r: Vec<usize>)
    ensures
        key_ordered(keys@, descending, r@),
        r@.len() == (if limit < keys.len() { limit as int } else { keys.len() as int }),
        forall|k: usize, i: int|
            #![trigger r@.contains(k), r@[i]]
            k < keys.len() && !r@.contains(k) && 0 <= i < r@.len() ==> precedes(keys@, descending, r@[i] as int, k as int),
{
    let n = keys.len();
    let mut order: Vec<usize> = Vec::new();
    let mut k: usize = 0;
    while k < n
        invariant
            k <= n == keys.len(),
            order@.len() == k,
            key_ordered(keys@, descending, order@),
            forall|i: int| 0 <= i < order@.len() ==> #[trigger] order@[i] < k,
            forall|m: usize| m < k ==> #[trigger] order@.contains(m),
        decreases n - k,
    {
        let mut p: usize = 0;
        while p < order.len() && !sorts_after_exec(descending, keys[order[p]], keys[k])
            invariant
                p <= order@.len(),
                k < keys.len(),
                forall|i: int| 0 <= i < order@.len() ==> #[trigger] order@[i] < k,
                forall|q: int| 0 <= q < p ==> !sorts_after(descending, keys@[#[trigger] order@[q] as int], keys@[k as int]),
            decreases order@.len() - p,
        {
            p = p + 1;
        }
        let ghost old_order = order@;
        order.insert(p, k);
        proof {
            let s = order@;
            assert(s == old_order.insert(p as int, k));
            assert forall|i: int| 0 <= i < s.len() implies #[trigger] s[i] < keys.len() by {
                if i < p {
                    assert(s[i] == old_order[i]);
                } else if i > p {
                    assert(s[i] == old_order[i - 1]);
                }
            }
            assert forall|i: int, j: int| 0 <= i < j < s.len() implies precedes(
                keys@,
                descending,
                #[trigger] s[i] as int,
                #[trigger] s[j] as int,
            ) by {
                if j < p {
                    assert(s[i] == old_order[i] && s[j] == old_order[j]);
                } else if j == p {
                    assert(s[i] == old_order[i]);
                    assert(!sorts_after(descending, keys@[old_order[i] as int], keys@[k as int]));
                } else if i == p {
                    assert(s[j] == old_order[j - 1]);
                    assert(p < old_order.len());
                    assert(sorts_after(descending, keys@[old_order[p as int] as int], keys@[k as int]));
                    if j - 1 > p {
                        assert(precedes(keys@, descending, old_order[p as int] as int, old_order[j - 1] as int));
                    }
                } else if i < p {
                    assert(s[i] == old_order[i] && s[j] == old_order[j - 1]);
                    assert(precedes(keys@, descending, old_order[i] as int, old_order[j - 1] as int));
                } else {
                    assert(s[i] == old_order[i - 1] && s[j] == old_order[j - 1]);
                    assert(precedes(keys@, descending, old_order[i - 1] as int, old_order[j - 1] as int));
                }
            }
            assert forall|i: int| 0 <= i < s.len() implies #[trigger] s[i] < k + 1 by {
                if i < p {
                    assert(s[i] == old_order[i]);
                } else if i > p {
                    assert(s[i] == old_order[i - 1]);
                }
            }
            assert forall|m: usize| m < k + 1 implies #[trigger] s.contains(m) by {
                if m < k {
                    assert(old_order.contains(m));
                    let q = choose|q: int| 0 <= q < old_order.len() && old_order[q] == m;
                    if q < p {
                        assert(s[q] == old_order[q]);
                    } else {
                        assert(s[q + 1] == old_order[q]);
                    }
                } else {
                    assert(s[p as int] == k);
                }
            }
        }
        k = k + 1;
    }
    let lim = if limit < n { limit } else { n };
    let mut r: Vec<usize> = Vec::new();
    let mut i: usize = 0;
    while i < lim
        invariant
            i <= lim <= order@.len(),
            r@ == order@.subrange(0, i as int),
        decreases lim - i,
    {
        r.push(order[i]);
        i = i + 1;
        assert(r@ == order@.subrange(0, i as int));
    }
    proof {
        assert forall|m: usize, a: int|
            #![trigger r@.contains(m), r@[a]]
            m < keys.len() && !r@.contains(m) && 0 <= a < r@.len() implies precedes(keys@, descending, r@[a] as int, m as int) by {
            assert(order@.contains(m));
            let q = choose|q: int| 0 <= q < order@.len() && order@[q] == m;
            if q < lim {
                assert(r@[q] == order@[q]);
            }
            assert(r@[a] == order@[a]);
            assert(a < q);
        }
    }
    r
}

// ── By name ──────────────────────────────────────────────────────────────────

/// `a` sorts before `b` character by character, as `str` compares: at the
/// first difference the smaller character wins, and a proper prefix comes
/// first.
pub open spec fn lex_less(a: Seq<char>, b: Seq<char>) -> bool
    decreases a.len(),
{
    if a.len() == 0 {
        b.len() > 0
    } else if b.len() == 0 {
        false
    } else if a[0] != b[0] {
        (a[0] as int) < (b[0] as int)
    } else {
        lex_less(a.drop_first(), b.drop_first())
    }
}

proof fn lemma_lex_trans(a: Seq<char>, b: Seq<char>, c: Seq<char>)
    requires
        lex_less(a, b),
        lex_less(b, c),
    ensures
        lex_less(a, c),
    decreases a.len(),
{
    if a.len() > 0 && b.len() > 0 && c.len() > 0 && a[0] == b[0] && b[0] == c[0] {
        lemma_lex_trans(a.drop_first(), b.drop_first(), c.drop_first());
    }
}

proof fn lemma_lex_total(a: Seq<char>, b: Seq<char>)
    ensures
        a == b || lex_less(a, b) || lex_less(b, a),
        !(lex_less(a, b) && lex_less(b, a)),
        !lex_less(a, a),
    decreases a.len(),
{
    if a.len() > 0 && b.len() > 0 {
        lemma_lex_total(a.drop_first(), b.drop_first());
        if a[0] == b[0] && a.drop_first() == b.drop_first() {
            assert(a =~= seq![a[0]] + a.drop_first());
            assert(b =~= seq![b[0]] + b.drop_first());
        }
        lemma_lex_total(a.drop_first(), a.drop_first());
    } else if a.len() == 0 && b.len() == 0 {
        assert(a =~= b);
    } else if a.len() > 0 {
        lemma_lex_total(a.drop_first(), a.drop_first());
    }
}

fn lex_less_exec(a: &Vec<char>, b: &Vec<char>) -> (r: bool)
    ensures
        r == lex_less(a@, b@),
{
    let mut i: usize = 0;
    assert(a@.subrange(0, a@.len() as int) == a@);
    assert(b@.subrange(0, b@.len() as int) == b@);
    while i < a.len() && i < b.len() && a[i] == b[i]
        invariant
            i <= a@.len(),
            i <= b@.len(),
            a@.subrange(0, i as int) == b@.subrange(0, i as int),
            lex_less(a@, b@) == lex_less(a@.subrange(i as int, a@.len() as int), b@.subrange(i as int, b@.len() as int)),
        decreases a.len() - i,
    {
        let ghost sa = a@.subrange(i as int, a@.len() as int);
        let ghost sb = b@.subrange(i as int, b@.len() as int);
        assert(sa.drop_first() == a@.subrange(i + 1, a@.len() as int));
        assert(sb.drop_first() == b@.subrange(i + 1, b@.len() as int));
        assert(sa[0] == a@[i as int] && sb[0] == b@[i as int]);
        i = i + 1;
        assert(a@.subrange(0, i as int) == b@.subrange(0, i as int)) by {
            assert forall|q: int| 0 <= q < i implies a@.subrange(0, i as int)[q] == b@.subrange(0, i as int)[q] by {
                if q < i - 1 {
                    assert(a@.subrange(0, i - 1)[q] == b@.subrange(0, i - 1)[q]);
                }
            }
        }
    }
    let ghost sa = a@.subrange(i as int, a@.len() as int);
    let ghost sb = b@.subrange(i as int, b@.len() as int);
    if i == a.len() {
        i < b.len()
    } else if i == b.len() {
        false
    } else {
        assert(sa[0] == a@[i as int] && sb[0] == b@[i as int]);
        a[i] < b[i]
    }
}

/// In a stable sort by name, the entry at position `a` comes before the one
/// at position `b`.
pub open spec fn name_precedes(names: Seq<Seq<char>>, a: int, b: int) -> bool {
    lex_less(names[a], names[b]) || (names[a] == names[b] && a < b)
}

/// `order` lists positions of `names`, each earlier one before each later
/// one in the stable sort by name (so none twice).
pub open spec fn name_ordered(names: Seq<Seq<char>>, order: Seq<usize>) -> bool {
    &&& forall|i: int| 0 <= i < order.len() ==> #[trigger] order[i] < names.len()
    &&& forall|i: int, j: int|
        0 <= i < j < order.len() ==> name_precedes(names, #[trigger] order[i] as int, #[trigger] order[j] as int)
}

/// The positions of `names` in stably sorted order by name, the first
/// `limit` of them: every position left out comes after every position
/// kept.
pub fn name_order(names: &Vec<String>, limit: usize) -> (r: Vec<usize>)
    ensures
        name_ordered(names@.map_values(|s: String| s@), r@),
        r@.len() == (if limit < names.len() { limit as int } else { names.len() as int }),
        forall|k: usize, i: int|
            #![trigger r@.contains(k), r@[i]]
            k < names.len() && !r@.contains(k) && 0 <= i < r@.len() ==> name_precedes(
                names@.map_values(|s: String| s@),
                r@[i] as int,
                k as int,
            ),
{
    let ghost ks = names@.map_values(|s: String| s@);
    let n = names.len();
    let mut keys: Vec<Vec<char>> = Vec::new();
    let mut c: usize = 0;
    while c < n
        invariant
            c <= n == names.len(),
            ks == names@.map_values(|s: String| s@),
            keys@.len() == c,
            forall|q: int| 0 <= q < c ==> #[trigger] keys@[q]@ == ks[q],
        decreases n - c,
    {
        keys.push(chars_of(names[c].as_str()));
        c = c + 1;
    }
    let mut order: Vec<usize> = Vec::new();
    let mut k: usize = 0;
    while k < n
        invariant
            k <= n == names.len() == keys@.len() == ks.len(),
            forall|q: int| 0 <= q < n ==> #[trigger] keys@[q]@ == ks[q],
            order@.len() == k,
            name_ordered(ks, order@),
            forall|i: int| 0 <= i < order@.len() ==> #[trigger] order@[i] < k,
            forall|m: usize| m < k ==> #[trigger] order@.contains(m),
        decreases n - k,
    {
        let mut p: usize = 0;
        while p < order.len() && !lex_less_exec(&keys[k], &keys[order[p]])
            invariant
                p <= order@.len(),
                k < keys@.len() == ks.len(),
                forall|q: int| 0 <= q < keys@.len() ==> #[trigger] keys@[q]@ == ks[q],
                forall|i: int| 0 <= i < order@.len() ==> #[trigger] order@[i] < k,
                forall|q: int| 0 <= q < p ==> !lex_less(ks[k as int], ks[#[trigger] order@[q] as int]),
            decreases order@.len() - p,
        {
            p = p + 1;
        }
        let ghost old_order = order@;
        order.insert(p, k);
        proof {
            let s = order@;
            assert(s == old_order.insert(p as int, k));
            assert forall|i: int| 0 <= i < s.len() implies #[trigger] s[i] < ks.len() by {
                if i < p {
                    assert(s[i] == old_order[i]);
                } else if i > p {
                    assert(s[i] == old_order[i - 1]);
                }
            }
            assert forall|i: int, j: int| 0 <= i < j < s.len() implies name_precedes(
                ks,
                #[trigger] s[i] as int,
                #[trigger] s[j] as int,
            ) by {
                if j < p {
                    assert(s[i] == old_order[i] && s[j] == old_order[j]);
                } else if j == p {
                    assert(s[i] == old_order[i]);
                    let o = old_order[i] as int;
                    assert(!lex_less(ks[k as int], ks[o]));
                    lemma_lex_total(ks[o], ks[k as int]);
                } else if i == p {
                    assert(s[j] == old_order[j - 1]);
                    let o = old_order[p as int] as int;
                    let w = old_order[j - 1] as int;
                    assert(lex_less(ks[k as int], ks[o]));
                    if j - 1 > p {
                        assert(name_precedes(ks, o, w));
                        if lex_less(ks[o], ks[w]) {
                            lemma_lex_trans(ks[k as int], ks[o], ks[w]);
                        }
                    }
                } else if i < p {
                    assert(s[i] == old_order[i] && s[j] == old_order[j - 1]);
                    assert(name_precedes(ks, old_order[i] as int, old_order[j - 1] as int));
                } else {
                    assert(s[i] == old_order[i - 1] && s[j] == old_order[j - 1]);
                    assert(name_precedes(ks, old_order[i - 1] as int, old_order[j - 1] as int));
                }
            }
            assert forall|i: int| 0 <= i < s.len() implies #[trigger] s[i] < k + 1 by {
                if i < p {
                    assert(s[i] == old_order[i]);
                } else if i > p {
                    assert(s[i] == old_order[i - 1]);
                }
            }
            assert forall|m: usize| m < k + 1 implies #[trigger] s.contains(m) by {
                if m < k {
                    assert(old_order.contains(m));
                    let q = choose|q: int| 0 <= q < old_order.len() && old_order[q] == m;
                    if q < p {
                        assert(s[q] == old_order[q]);
                    } else {
                        assert(s[q + 1] == old_order[q]);
                    }
                } else {
                    assert(s[p as int] == k);
                }
            }
        }
        k = k + 1;
    }
    let lim = if limit < n { limit } else { n };
    let mut r: Vec<usize> = Vec::new();
    let mut i: usize = 0;
    while i < lim
        invariant
            i <= lim <= order@.len(),
            r@ == order@.subrange(0, i as int),
        decreases lim - i,
    {
        r.push(order[i]);
        i = i + 1;
        assert(r@ == order@.subrange(0, i as int));
    }
    proof {
        assert forall|m: usize, a: int|
            #![trigger r@.contains(m), r@[a]]
            m < names.len() && !r@.contains(m) && 0 <= a < r@.len() implies name_precedes(ks, r@[a] as int, m as int) by {
            assert(order@.contains(m));
            let q = choose|q: int| 0 <= q < order@.len() && order@[q] == m;
            if q < lim {
                assert(r@[q] == order@[q]);
            }
            assert(r@[a] == order@[a]);
            assert(a < q);
        }
    }
    r
}

} // verus!
