//! Ordering query results: a stable sort of positions by integer keys, as an
//! `ORDER BY key ASC` over rows in table order.
use vstd::prelude::*;

verus! {

/// Where a new entry with key `k` goes in `s`: after every entry whose key is at
/// most `k`, counting from the end.
pub open spec fn insert_pos(keys: Seq<i128>, s: Seq<usize>, k: i128) -> int
    decreases s.len(),
{
    if s.len() == 0 {
        0
    } else if keys[s.last() as int] > k {
        insert_pos(keys, s.drop_last(), k)
    } else {
        s.len() as int
    }
}

/// The positions `0..n` ordered by their keys; positions with equal keys keep
/// their order (insertion sort).
pub open spec fn sorted_positions(keys: Seq<i128>, n: nat) -> Seq<usize>
    decreases n,
{
    if n == 0 {
        Seq::empty()
    } else {
        let s = sorted_positions(keys, (n - 1) as nat);
        s.insert(insert_pos(keys, s, keys[n - 1]), (n - 1) as usize)
    }
}

/// The positions in `s` are ordered by their keys.
pub open spec fn sorted_by_keys(keys: Seq<i128>, s: Seq<usize>) -> bool {
    forall|i: int, j: int| 0 <= i < j < s.len() ==> keys[s[i] as int] <= keys[s[j] as int]
}

/// Positions with equal keys stand in increasing order.
pub open spec fn stable_by_keys(keys: Seq<i128>, s: Seq<usize>) -> bool {
    forall|i: int, j: int|
        0 <= i < j < s.len() && keys[s[i] as int] == keys[s[j] as int] ==> s[i] < s[j]
}

/// `s` holds each of `0..n` exactly once.
pub open spec fn is_permutation_of_range(s: Seq<usize>, n: nat) -> bool {
    &&& s.len() == n
    &&& forall|i: int| 0 <= i < s.len() ==> s[i] < n
    &&& forall|i: int, j: int| 0 <= i < j < s.len() ==> s[i] != s[j]
}

proof fn lemma_insert_pos(keys: Seq<i128>, s: Seq<usize>, k: i128)
    requires
        sorted_by_keys(keys, s),
        forall|i: int| 0 <= i < s.len() ==> s[i] < keys.len(),
    ensures
        0 <= insert_pos(keys, s, k) <= s.len(),
        forall|i: int| 0 <= i < insert_pos(keys, s, k) ==> keys[s[i] as int] <= k,
        forall|i: int| insert_pos(keys, s, k) <= i < s.len() ==> keys[s[i] as int] > k,
    decreases s.len(),
{
    if s.len() > 0 {
        if keys[s.last() as int] > k {
            let d = s.drop_last();
            assert forall|i: int, j: int| 0 <= i < j < d.len() implies keys[d[i] as int]
                <= keys[d[j] as int] by {
                assert(d[i] == s[i] && d[j] == s[j]);
            }
            lemma_insert_pos(keys, d, k);
            let p = insert_pos(keys, s, k);
            assert forall|i: int| 0 <= i < p implies keys[s[i] as int] <= k by {
                assert(d[i] == s[i]);
            }
            assert forall|i: int| p <= i < s.len() implies keys[s[i] as int] > k by {
                if i < s.len() - 1 {
                    assert(d[i] == s[i]);
                }
            }
        } else {
            assert forall|i: int| 0 <= i < s.len() implies keys[s[i] as int] <= k by {
                if i < s.len() - 1 {
                    assert(keys[s[i] as int] <= keys[s[s.len() - 1] as int]);
                }
            }
        }
    }
}

/// The sorted positions are a permutation of `0..n`, ordered by key, and
/// stable: the order of a stable `ORDER BY` over the first `n` rows.
pub proof fn lemma_sorted_positions(keys: Seq<i128>, n: nat)
    requires
        n <= keys.len(),
        keys.len() <= usize::MAX,
    ensures
        is_permutation_of_range(sorted_positions(keys, n), n),
        sorted_by_keys(keys, sorted_positions(keys, n)),
        stable_by_keys(keys, sorted_positions(keys, n)),
        forall|w: usize| w < n ==> #[trigger] sorted_positions(keys, n).contains(w),
    decreases n,
{
    if n > 0 {
        let m = (n - 1) as nat;
        lemma_sorted_positions(keys, m);
        let s = sorted_positions(keys, m);
        let k = keys[m as int];
        lemma_insert_pos(keys, s, k);
        let p = insert_pos(keys, s, k);
        let t = s.insert(p, m as usize);
        assert(t == sorted_positions(keys, n));
        assert(t[p] == m as usize);
        assert forall|w: usize| w < n implies #[trigger] t.contains(w) by {
            if w == m {
                assert(t[p] == w);
            } else {
                assert(s.contains(w));
                let i = choose|i: int| 0 <= i < s.len() && s[i] == w;
                if i < p {
                    assert(t[i] == s[i]);
                } else {
                    assert(t[i + 1] == s[i]);
                }
            }
        }
        assert forall|i: int| 0 <= i < t.len() implies t[i] < n by {
            if i < p {
                assert(t[i] == s[i]);
            } else if i > p {
                assert(t[i] == s[i - 1]);
            }
        }
        assert forall|i: int, j: int| 0 <= i < j < t.len() implies t[i] != t[j] by {
            if i < p && j < p {
                assert(t[i] == s[i] && t[j] == s[j]);
            } else if i < p && j == p {
                assert(t[i] == s[i]);
            } else if i < p {
                assert(t[i] == s[i] && t[j] == s[j - 1]);
            } else if i == p {
                assert(t[j] == s[j - 1]);
            } else {
                assert(t[i] == s[i - 1] && t[j] == s[j - 1]);
            }
        }
        assert forall|i: int, j: int| 0 <= i < j < t.len() implies keys[t[i] as int]
            <= keys[t[j] as int] by {
            if i < p && j < p {
                assert(t[i] == s[i] && t[j] == s[j]);
            } else if i < p && j == p {
                assert(t[i] == s[i]);
            } else if i < p {
                assert(t[i] == s[i] && t[j] == s[j - 1]);
            } else if i == p {
                assert(t[j] == s[j - 1]);
            } else {
                assert(t[i] == s[i - 1] && t[j] == s[j - 1]);
            }
        }
        assert forall|i: int, j: int|
            0 <= i < j < t.len() && keys[t[i] as int] == keys[t[j] as int] implies t[i]
            < t[j] by {
            if i < p && j < p {
                assert(t[i] == s[i] && t[j] == s[j]);
            } else if i < p && j == p {
                assert(t[i] == s[i]);
            } else if i < p {
                assert(t[i] == s[i] && t[j] == s[j - 1]);
            } else if i == p {
                assert(t[j] == s[j - 1]);
            } else {
                assert(t[i] == s[i - 1] && t[j] == s[j - 1]);
            }
        }
    }
}

/// The positions of `keys` in stable ascending key order.
pub fn sort_positions(keys: &Vec<i128>) -> (r: Vec<usize>)
    ensures
        r@ == sorted_positions(keys@, keys.len() as nat),
        is_permutation_of_range(r@, keys.len() as nat),
        sorted_by_keys(keys@, r@),
        stable_by_keys(keys@, r@),
{
    let mut r: Vec<usize> = Vec::new();
    let len = keys.len();
    let mut n: usize = 0;
    while n < len
        invariant
            len == keys.len(),
            n <= len,
            r@ == sorted_positions(keys@, n as nat),
        decreases len - n,
    {
        proof {
            lemma_sorted_positions(keys@, n as nat);
        }
        let k = keys[n];
        let mut p = r.len();
        proof {
            assert(r@.take(p as int) == r@);
        }
        while p > 0 && keys[r[p - 1]] > k
            invariant
                len == keys.len(),
                n < len,
                k == keys@[n as int],
                p <= r.len(),
                r@ == sorted_positions(keys@, n as nat),
                forall|i: int| 0 <= i < r.len() ==> r@[i] < n,
                insert_pos(keys@, r@, k) == insert_pos(keys@, r@.take(p as int), k),
            decreases p,
        {
            proof {
                let tp = r@.take(p as int);
                assert(tp.drop_last() == r@.take(p - 1));
                assert(tp.last() == r@[p - 1]);
            }
            p = p - 1;
        }
        proof {
            if p > 0 {
                let tp = r@.take(p as int);
                assert(tp.last() == r@[p - 1]);
            } else {
                assert(r@.take(0) == Seq::<usize>::empty());
            }
        }
        r.insert(p, n);
        n = n + 1;
    }
    proof {
        lemma_sorted_positions(keys@, len as nat);
    }
    r
}

} // verus!
