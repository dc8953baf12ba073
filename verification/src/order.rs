//! Ordering text the way `str`'s `Ord` does (code point by code point, a
//! proper prefix first) and the stable sort that lists are shown in.
use vstd::prelude::*;

verus! {

/// `a < b` in the order of `str` (and `String`): lexicographic by code
/// point, a proper prefix before the longer text. UTF-8 keeps code point
/// order, so this is the byte order `str` compares by.
pub open spec fn lex_lt(a: Seq<char>, b: Seq<char>) -> bool
    decreases a.len(),
{
    if a.len() == 0 {
        b.len() > 0
    } else if b.len() == 0 {
        false
    } else if a[0] != b[0] {
        a[0] < b[0]
    } else {
        lex_lt(a.drop_first(), b.drop_first())
    }
}

pub proof fn lemma_lex_total(a: Seq<char>, b: Seq<char>)
    ensures
        lex_lt(a, b) || lex_lt(b, a) || a == b,
        !(lex_lt(a, b) && lex_lt(b, a)),
        !lex_lt(a, a),
    decreases a.len(),
{
    if a.len() > 0 {
        lemma_lex_total(a.drop_first(), a.drop_first());
    }
    if a.len() > 0 && b.len() > 0 && a[0] == b[0] {
        lemma_lex_total(a.drop_first(), b.drop_first());
        if a.drop_first() == b.drop_first() {
            assert forall|i: int| 0 <= i < a.len() implies a[i] == b[i] by {
                if i > 0 {
                    assert(a[i] == a.drop_first()[i - 1]);
                    assert(b[i] == b.drop_first()[i - 1]);
                }
            }
            assert(a =~= b);
        }
    }
}

pub proof fn lemma_lex_trans(a: Seq<char>, b: Seq<char>, c: Seq<char>)
    requires
        lex_lt(a, b),
        lex_lt(b, c),
    ensures
        lex_lt(a, c),
    decreases a.len(),
{
    if a.len() > 0 && b.len() > 0 && c.len() > 0 && a[0] == b[0] && b[0] == c[0] {
        lemma_lex_trans(a.drop_first(), b.drop_first(), c.drop_first());
    }
}

/// Compares two texts in `str` order.
pub fn lex_less(a: &Vec<char>, b: &Vec<char>) -> (res: bool)
    ensures
        res == lex_lt(a@, b@),
{
    let mut i: usize = 0;
    assert(a@.skip(0) =~= a@);
    assert(b@.skip(0) =~= b@);
    while i < a.len() && i < b.len() && a[i] == b[i]
        invariant
            i <= a@.len(),
            i <= b@.len(),
            lex_lt(a@, b@) == lex_lt(a@.skip(i as int), b@.skip(i as int)),
        decreases a.len() - i,
    {
        assert(a@.skip(i as int).drop_first() =~= a@.skip(i + 1));
        assert(b@.skip(i as int).drop_first() =~= b@.skip(i + 1));
        assert(a@.skip(i as int)[0] == a@[i as int]);
        assert(b@.skip(i as int)[0] == b@[i as int]);
        i += 1;
    }
    if i < a.len() && i < b.len() {
        assert(a@.skip(i as int)[0] == a@[i as int]);
        assert(b@.skip(i as int)[0] == b@[i as int]);
        a[i] < b[i]
    } else {
        i == a.len() && i < b.len()
    }
}

/// `order` lists each position of `keys` once, sorted by key and, among
/// equal keys, by position: the order a stable sort leaves the items in.
pub open spec fn stably_sorted(keys: Seq<Seq<char>>, order: Seq<usize>) -> bool {
    &&& order.len() == keys.len()
    &&& forall|i: int| 0 <= i < order.len() ==> #[trigger] order[i] < keys.len()
    &&& forall|i: int, j: int| 0 <= i < j < order.len() ==> #[trigger] order[i] != #[trigger] order[j]
    &&& forall|i: int, j: int|
        0 <= i < j < order.len() ==> lex_lt(keys[#[trigger] order[i] as int], keys[#[trigger] order[j] as int])
            || (keys[order[i] as int] == keys[order[j] as int] && order[i] < order[j])
}

/// The order a stable sort by `keys` puts the items in.
pub fn stable_order(keys: &Vec<Vec<char>>) -> (order: Vec<usize>)
    ensures
        stably_sorted(keys@.map_values(|k: Vec<char>| k@), order@),
{
    let ghost ks = keys@.map_values(|k: Vec<char>| k@);
    let mut order: Vec<usize> = Vec::new();
    let mut k: usize = 0;
    while k < keys.len()
        invariant
            k <= keys@.len(),
            ks == keys@.map_values(|k: Vec<char>| k@),
            order@.len() == k,
            forall|i: int| 0 <= i < order@.len() ==> #[trigger] order@[i] < k,
            forall|i: int, j: int| 0 <= i < j < order@.len() ==> #[trigger] order@[i] != #[trigger] order@[j],
            forall|i: int, j: int|
                0 <= i < j < order@.len() ==> lex_lt(ks[#[trigger] order@[i] as int], ks[#[trigger] order@[j] as int])
                    || (ks[order@[i] as int] == ks[order@[j] as int] && order@[i] < order@[j]),
        decreases keys.len() - k,
    {
        // The insertion point: the first entry whose key is greater.
        let mut pos: usize = 0;
        while pos < order.len() && !lex_less(&keys[k], &keys[order[pos]])
            invariant
                pos <= order@.len(),
                k < keys@.len(),
                ks == keys@.map_values(|k: Vec<char>| k@),
                forall|i: int| 0 <= i < order@.len() ==> #[trigger] order@[i] < k,
                forall|i: int| 0 <= i < pos ==> !lex_lt(ks[k as int], ks[#[trigger] order@[i] as int]),
            decreases order.len() - pos,
        {
            pos += 1;
        }
        proof {
            assert forall|i: int| 0 <= i < pos implies lex_lt(ks[#[trigger] order@[i] as int], ks[k as int])
                || ks[order@[i] as int] == ks[k as int] by {
                lemma_lex_total(ks[order@[i] as int], ks[k as int]);
            }
            if pos < order@.len() {
                assert forall|j: int| pos <= j < order@.len() implies lex_lt(ks[k as int], ks[#[trigger] order@[j] as int]) by {
                    if j > pos {
                        let a = ks[order@[pos as int] as int];
                        let b = ks[order@[j] as int];
                        assert(lex_lt(a, b) || a == b);
                        if lex_lt(a, b) {
                            lemma_lex_trans(ks[k as int], a, b);
                        }
                    }
                }
            }
        }
        let ghost before = order@;
        order.insert(pos, k);
        proof {
            assert forall|i: int| 0 <= i < order@.len() implies #[trigger] order@[i] < k + 1 by {
                if i < pos {
                    assert(order@[i] == before[i]);
                } else if i > pos {
                    assert(order@[i] == before[i - 1]);
                }
            }
            assert forall|i: int, j: int| 0 <= i < j < order@.len() implies #[trigger] order@[i] != #[trigger] order@[j] by {
                if i < pos && j < pos {
                    assert(order@[i] == before[i] && order@[j] == before[j]);
                } else if i < pos && j == pos {
                    assert(order@[i] == before[i]);
                } else if i < pos && j > pos {
                    assert(order@[i] == before[i] && order@[j] == before[j - 1]);
                } else if i == pos {
                    assert(order@[j] == before[j - 1]);
                } else {
                    assert(order@[i] == before[i - 1] && order@[j] == before[j - 1]);
                }
            }
            assert forall|i: int, j: int|
                0 <= i < j < order@.len() implies lex_lt(ks[#[trigger] order@[i] as int], ks[#[trigger] order@[j] as int])
                || (ks[order@[i] as int] == ks[order@[j] as int] && order@[i] < order@[j]) by {
                if i < pos && j < pos {
                    assert(order@[i] == before[i] && order@[j] == before[j]);
                } else if i < pos && j == pos {
                    assert(order@[i] == before[i]);
                } else if i < pos && j > pos {
                    assert(order@[i] == before[i] && order@[j] == before[j - 1]);
                } else if i == pos {
                    assert(order@[j] == before[j - 1]);
                } else {
                    assert(order@[i] == before[i - 1] && order@[j] == before[j - 1]);
                }
            }
        }
        k += 1;
    }
    order
}

/// `order` lists each position below `n` exactly once.
pub open spec fn is_permutation(order: Seq<usize>, n: nat) -> bool {
    &&& order.len() == n
    &&& forall|i: int| 0 <= i < order.len() ==> #[trigger] order[i] < n
    &&& forall|i: int, j: int| 0 <= i < j < order.len() ==> #[trigger] order[i] != #[trigger] order[j]
}

/// The items in the order `order` gives: item `order[i]` goes to place `i`.
pub fn permute<T>(items: Vec<T>, order: &Vec<usize>) -> (res: Vec<T>)
    requires
        is_permutation(order@, items@.len()),
    ensures
        res@.len() == items@.len(),
        forall|i: int| 0 <= i < res@.len() ==> #[trigger] res@[i] == items@[order@[i] as int],
{
    let ghost orig = items@;
    let n = items.len();
    let mut rest = items;
    let mut slots: Vec<Option<T>> = Vec::new();
    let mut k: usize = 0;
    assert(orig.skip(0) =~= orig);
    while rest.len() > 0
        invariant
            k + rest@.len() == orig.len(),
            n == orig.len(),
            rest@ == orig.skip(k as int),
            slots@.len() == k,
            forall|j: int| 0 <= j < k ==> #[trigger] slots@[j] == Some(orig[j]),
        decreases rest.len(),
    {
        let x = rest.remove(0);
        assert(x == orig[k as int]);
        assert(rest@ =~= orig.skip(k + 1));
        slots.push(Some(x));
        k += 1;
    }
    let mut out: Vec<T> = Vec::new();
    let mut i: usize = 0;
    while i < n
        invariant
            i <= n,
            n == orig.len(),
            is_permutation(order@, n as nat),
            slots@.len() == n,
            out@.len() == i,
            forall|m: int| 0 <= m < i ==> #[trigger] out@[m] == orig[order@[m] as int],
            forall|j: int|
                0 <= j < n ==> (#[trigger] slots@[j] == Some(orig[j]) || exists|m: int|
                    0 <= m < i && order@[m] == j),
        decreases n - i,
    {
        let j = order[i];
        proof {
            if slots@[j as int] != Some(orig[j as int]) {
                let m = choose|m: int| 0 <= m < i && order@[m] == j;
                assert(order@[m] != order@[i as int]);
            }
        }
        slots.push(None);
        let ghost before = slots@;
        let x = slots.swap_remove(j);
        match x {
            Some(v) => {
                out.push(v);
            },
            None => {
                assert(false);
            },
        }
        proof {
            assert forall|jj: int|
                0 <= jj < n implies (#[trigger] slots@[jj] == Some(orig[jj]) || exists|m: int|
                    0 <= m < i + 1 && order@[m] == jj) by {
                if jj == j {
                    assert(order@[i as int] == jj);
                } else {
                    assert(slots@[jj] == before[jj]);
                    if slots@[jj] != Some(orig[jj]) {
                        let m = choose|m: int| 0 <= m < i && order@[m] == jj;
                        assert(0 <= m < i + 1 && order@[m] == jj);
                    }
                }
            }
        }
        i += 1;
    }
    out
}

} // verus!
