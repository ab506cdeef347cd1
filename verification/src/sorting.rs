//! Stable ordering by lexicographic integer keys, shared by every list the
//! library sorts (names, paths, timestamps).

use vstd::prelude::*;

verus! {

/// Lexicographic "strictly less" on key sequences; a proper prefix is smaller.
pub open spec fn key_lt(a: Seq<i128>, b: Seq<i128>) -> bool
    decreases a.len(),
{
    if a.len() == 0 {
        b.len() > 0
    } else if b.len() == 0 {
        false
    } else if a[0] < b[0] {
        true
    } else if a[0] > b[0] {
        false
    } else {
        key_lt(a.drop_first(), b.drop_first())
    }
}

/// Whether key `a` must come strictly before key `b` in the requested direction.
pub open spec fn precedes(a: Seq<i128>, b: Seq<i128>, descending: bool) -> bool {
    if descending {
        key_lt(b, a)
    } else {
        key_lt(a, b)
    }
}

/// `p` lists every index below `n` exactly once.
pub open spec fn is_permutation(p: Seq<usize>, n: nat) -> bool {
    &&& p.len() == n
    &&& forall|i: int| 0 <= i < n ==> #[trigger] p[i] < n
    &&& forall|i: int, j: int| 0 <= i < n && 0 <= j < n && i != j ==> p[i] != p[j]
}

/// Visiting `keys` in the order `p` never puts a key after one it precedes, and
/// equal keys keep their original relative order.
pub open spec fn stably_sorted(keys: Seq<Seq<i128>>, p: Seq<usize>, descending: bool) -> bool {
    forall|i: int, j: int|
        #![trigger p[i], p[j]]
        0 <= i < j < p.len() ==> {
            &&& !precedes(keys[p[j] as int], keys[p[i] as int], descending)
            &&& (keys[p[i] as int] == keys[p[j] as int] ==> p[i] < p[j])
        }
}

pub proof fn lemma_key_lt_irreflexive(a: Seq<i128>)
    ensures
        !key_lt(a, a),
    decreases a.len(),
{
    if a.len() > 0 {
        lemma_key_lt_irreflexive(a.drop_first());
    }
}

pub proof fn lemma_key_lt_transitive(a: Seq<i128>, b: Seq<i128>, c: Seq<i128>)
    requires
        key_lt(a, b),
        key_lt(b, c),
    ensures
        key_lt(a, c),
    decreases a.len(),
{
    if a.len() > 0 && b.len() > 0 && c.len() > 0 && a[0] == b[0] && b[0] == c[0] {
        lemma_key_lt_transitive(a.drop_first(), b.drop_first(), c.drop_first());
    }
}

pub proof fn lemma_key_lt_total(a: Seq<i128>, b: Seq<i128>)
    ensures
        a == b || key_lt(a, b) || key_lt(b, a),
    decreases a.len(),
{
    if a.len() > 0 && b.len() > 0 && a[0] == b[0] {
        let ta = a.drop_first();
        let tb = b.drop_first();
        lemma_key_lt_total(ta, tb);
        if ta == tb {
            assert forall|i: int| 0 <= i < a.len() implies a[i] == b[i] by {
                if i > 0 {
                    assert(a[i] == ta[i - 1]);
                    assert(b[i] == tb[i - 1]);
                }
            }
            assert(a =~= b);
        }
    }
}

pub proof fn lemma_key_lt_asymmetric(a: Seq<i128>, b: Seq<i128>)
    requires
        key_lt(a, b),
    ensures
        !key_lt(b, a),
{
    if key_lt(b, a) {
        lemma_key_lt_transitive(a, b, a);
        lemma_key_lt_irreflexive(a);
    }
}

/// "Not after" is transitive: `a <= b` and `b <= c` give `a <= c`.
pub proof fn lemma_not_precedes_transitive(a: Seq<i128>, b: Seq<i128>, c: Seq<i128>, d: bool)
    requires
        !precedes(b, a, d),
        !precedes(c, b, d),
    ensures
        !precedes(c, a, d),
{
    lemma_key_lt_total(a, b);
    if precedes(c, a, d) {
        if a == b {
        } else if d {
            lemma_key_lt_transitive(b, a, c);
        } else {
            lemma_key_lt_transitive(c, a, b);
        }
    }
}

/// Lexicographic comparison of two keys.
pub fn key_less(a: &Vec<i128>, b: &Vec<i128>) -> (r: bool)
    ensures
        r == key_lt(a@, b@),
    decreases a@.len(),
{
    let n = if a.len() < b.len() {
        a.len()
    } else {
        b.len()
    };
    let mut i: usize = 0;
    assert(a@.subrange(0, a@.len() as int) =~= a@);
    assert(b@.subrange(0, b@.len() as int) =~= b@);
    while i < n
        invariant
            n <= a@.len(),
            n <= b@.len(),
            n == a@.len() || n == b@.len(),
            i <= n,
            forall|k: int| 0 <= k < i ==> a@[k] == b@[k],
            key_lt(a@, b@) == key_lt(a@.subrange(i as int, a@.len() as int), b@.subrange(
                i as int,
                b@.len() as int,
            )),
        decreases n - i,
    {
        if a[i] < b[i] {
            return true;
        }
        if a[i] > b[i] {
            return false;
        }
        assert(a@.subrange(i as int, a@.len() as int).drop_first() =~= a@.subrange(
            i + 1,
            a@.len() as int,
        ));
        assert(b@.subrange(i as int, b@.len() as int).drop_first() =~= b@.subrange(
            i + 1,
            b@.len() as int,
        ));
        i = i + 1;
    }
    i < b.len()
}

/// The ordered sequence of keys used by the specifications.
pub open spec fn key_views(keys: Seq<Vec<i128>>) -> Seq<Seq<i128>> {
    Seq::new(keys.len(), |i: int| keys[i]@)
}

fn precedes_exec(a: &Vec<i128>, b: &Vec<i128>, descending: bool) -> (r: bool)
    ensures
        r == precedes(a@, b@, descending),
{
    if descending {
        key_less(b, a)
    } else {
        key_less(a, b)
    }
}

/// A stable sorting order of `keys`: the result lists each index once, in
/// non-decreasing key order (non-increasing when `descending`), keeping equal
/// keys in their original order.
pub fn stable_order(keys: &Vec<Vec<i128>>, descending: bool) -> (order: Vec<usize>)
    ensures
        is_permutation(order@, keys@.len()),
        stably_sorted(key_views(keys@), order@, descending),
{
    let ghost ks = key_views(keys@);
    let n = keys.len();
    let mut out: Vec<usize> = Vec::new();
    for i in 0..n
        invariant
            n == keys@.len(),
            ks == key_views(keys@),
            out@.len() == i,
            forall|q: int| 0 <= q < i ==> #[trigger] out@[q] < i,
            forall|q: int, r: int| 0 <= q < i && 0 <= r < i && q != r ==> out@[q] != out@[r],
            stably_sorted(ks, out@, descending),
    {
        let mut p = out.len();
        while p > 0 && precedes_exec(&keys[i], &keys[out[p - 1]], descending)
            invariant
                n == keys@.len(),
                i < n,
                ks == key_views(keys@),
                out@.len() == i,
                p <= i,
                forall|q: int| 0 <= q < i ==> #[trigger] out@[q] < i,
                forall|q: int| p <= q < i ==> precedes(ks[i as int], ks[out@[q] as int], descending),
            decreases p,
        {
            p = p - 1;
        }
        proof {
            assert forall|q: int| 0 <= q < p implies !precedes(
                ks[i as int],
                ks[out@[q] as int],
                descending,
            ) by {
                if q < p - 1 {
                    lemma_not_precedes_transitive(
                        ks[out@[q] as int],
                        ks[out@[p - 1] as int],
                        ks[i as int],
                        descending,
                    );
                }
            }
            assert forall|q: int| p <= q < i implies !precedes(
                ks[out@[q] as int],
                ks[i as int],
                descending,
            ) && ks[i as int] != ks[out@[q] as int] by {
                if descending {
                    lemma_key_lt_asymmetric(ks[out@[q] as int], ks[i as int]);
                    lemma_key_lt_irreflexive(ks[i as int]);
                } else {
                    lemma_key_lt_asymmetric(ks[i as int], ks[out@[q] as int]);
                    lemma_key_lt_irreflexive(ks[i as int]);
                }
            }
        }
        let ghost old_out = out@;
        out.insert(p, i);
        proof {
            assert forall|q: int| 0 <= q < i + 1 implies #[trigger] out@[q] < i + 1 by {
                if q < p {
                    assert(out@[q] == old_out[q]);
                } else if q > p {
                    assert(out@[q] == old_out[q - 1]);
                }
            }
            assert forall|q: int, r: int|
                0 <= q < i + 1 && 0 <= r < i + 1 && q != r implies out@[q] != out@[r] by {
                let oq = if q < p {
                    q
                } else {
                    q - 1
                };
                let or = if r < p {
                    r
                } else {
                    r - 1
                };
                if q != p && r != p {
                    assert(out@[q] == old_out[oq]);
                    assert(out@[r] == old_out[or]);
                } else if q == p {
                    assert(out@[r] == old_out[or]);
                } else {
                    assert(out@[q] == old_out[oq]);
                }
            }
            assert forall|a: int, b: int| 0 <= a < b < out@.len() implies {
                &&& !precedes(ks[out@[b] as int], ks[out@[a] as int], descending)
                &&& (ks[out@[a] as int] == ks[out@[b] as int] ==> out@[a] < out@[b])
            } by {
                let oa = if a < p {
                    a
                } else {
                    a - 1
                };
                let ob = if b < p {
                    b
                } else {
                    b - 1
                };
                if a != p && b != p {
                    assert(out@[a] == old_out[oa]);
                    assert(out@[b] == old_out[ob]);
                    assert(oa < ob);
                } else if a == p {
                    assert(out@[b] == old_out[ob]);
                } else {
                    assert(out@[a] == old_out[oa]);
                }
            }
        }
    }
    proof {
        order_is_permutation(out@, n as nat);
    }
    out
}

proof fn order_is_permutation(p: Seq<usize>, n: nat)
    requires
        p.len() == n,
        forall|q: int| 0 <= q < n ==> #[trigger] p[q] < n,
        forall|q: int, r: int| 0 <= q < n && 0 <= r < n && q != r ==> p[q] != p[r],
    ensures
        is_permutation(p, n),
{
}

/// Rearranges `items` so that position `i` of the result holds `items[order[i]]`.
pub fn apply_order<T>(items: Vec<T>, order: &Vec<usize>) -> (out: Vec<T>)
    requires
        is_permutation(order@, items@.len()),
    ensures
        out@.len() == items@.len(),
        forall|i: int| 0 <= i < out@.len() ==> out@[i] == items@[order@[i] as int],
{
    let ghost orig = items@;
    let n = items.len();
    let mut slots: Vec<Option<T>> = Vec::new();
    for x in it: items
        invariant
            it.seq() == orig,
            slots@.len() == it.index(),
            forall|k: int| 0 <= k < slots@.len() ==> slots@[k] == Some(orig[k]),
    {
        slots.push(Some(x));
    }
    let mut out: Vec<T> = Vec::new();
    for i in 0..n
        invariant
            n == orig.len(),
            slots@.len() == n,
            is_permutation(order@, n as nat),
            out@.len() == i,
            forall|k: int| 0 <= k < i ==> out@[k] == orig[order@[k] as int],
            forall|k: int|
                0 <= k < n ==> ((exists|q: int| 0 <= q < i && order@[q] == k) || slots@[k] == Some(
                    orig[k],
                )),
    {
        let j = order[i];
        assert(slots@[j as int] == Some(orig[j as int])) by {
            if exists|q: int| 0 <= q < i && order@[q] == j {
                let q = choose|q: int| 0 <= q < i && order@[q] == j;
                assert(order@[q] != order@[i as int]);
            }
        }
        let taken = slots[j].take();
        match taken {
            Some(v) => {
                out.push(v);
            },
            None => {},
        }
        assert forall|k: int|
            0 <= k < n implies ((exists|q: int| 0 <= q < i + 1 && order@[q] == k) || slots@[k]
                == Some(orig[k])) by {
            if k == j {
                assert(order@[i as int] == k);
            } else if exists|q: int| 0 <= q < i && order@[q] == k {
                let q = choose|q: int| 0 <= q < i && order@[q] == k;
                assert(0 <= q < i + 1 && order@[q] == k);
            }
        }
    }
    out
}

} // verus!
