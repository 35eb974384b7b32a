//! The order of strings (as `Ord` orders `String`: character by character, by
//! code point, a proper prefix first) and a stable sort by a string key.
use vstd::prelude::*;
use crate::text::to_chars;

verus! {

/// `a < b` for strings.
pub open spec fn str_lt(a: Seq<char>, b: Seq<char>) -> bool
    decreases a.len(),
{
    if a.len() == 0 {
        b.len() > 0
    } else if b.len() == 0 {
        false
    } else if a[0] != b[0] {
        a[0] < b[0]
    } else {
        str_lt(a.drop_first(), b.drop_first())
    }
}

pub proof fn lemma_str_lt_irreflexive(a: Seq<char>)
    ensures
        !str_lt(a, a),
    decreases a.len(),
{
    if a.len() > 0 {
        lemma_str_lt_irreflexive(a.drop_first());
    }
}

pub proof fn lemma_str_lt_asymmetric(a: Seq<char>, b: Seq<char>)
    ensures
        !(str_lt(a, b) && str_lt(b, a)),
    decreases a.len(),
{
    if a.len() > 0 && b.len() > 0 && a[0] == b[0] {
        lemma_str_lt_asymmetric(a.drop_first(), b.drop_first());
    }
}

pub proof fn lemma_str_lt_transitive(a: Seq<char>, b: Seq<char>, c: Seq<char>)
    requires
        str_lt(a, b),
        str_lt(b, c),
    ensures
        str_lt(a, c),
    decreases a.len(),
{
    if a.len() > 0 && b.len() > 0 && c.len() > 0 && a[0] == b[0] && b[0] == c[0] {
        lemma_str_lt_transitive(a.drop_first(), b.drop_first(), c.drop_first());
    }
}

pub proof fn lemma_str_lt_total(a: Seq<char>, b: Seq<char>)
    ensures
        a == b || str_lt(a, b) || str_lt(b, a),
    decreases a.len(),
{
    if a.len() == 0 || b.len() == 0 {
        if a.len() == 0 && b.len() == 0 {
            assert(a =~= b);
        }
    } else if a[0] == b[0] {
        let (x, y) = (a.drop_first(), b.drop_first());
        lemma_str_lt_total(x, y);
        if x == y {
            assert forall|i: int| 0 <= i < a.len() implies a[i] == b[i] by {
                if i > 0 {
                    assert(a[i] == x[i - 1]);
                    assert(b[i] == y[i - 1]);
                }
            }
            assert(a =~= b);
        }
    }
}

/// `a < b` for strings.
pub fn str_less(a: &str, b: &str) -> (r: bool)
    ensures
        r == str_lt(a@, b@),
{
    let v = to_chars(a);
    let w = to_chars(b);
    let mut i: usize = 0;
    assert(v@.skip(0) =~= v@);
    assert(w@.skip(0) =~= w@);
    while i < v.len() && i < w.len() && v[i] == w[i]
        invariant
            v@ == a@,
            w@ == b@,
            i <= v.len(),
            i <= w.len(),
            str_lt(a@, b@) == str_lt(v@.skip(i as int), w@.skip(i as int)),
        decreases v.len() - i,
    {
        assert(v@.skip(i as int).drop_first() =~= v@.skip(i + 1));
        assert(w@.skip(i as int).drop_first() =~= w@.skip(i + 1));
        i = i + 1;
    }
    if i == v.len() {
        i < w.len()
    } else if i == w.len() {
        false
    } else {
        assert(v@.skip(i as int)[0] == v@[i as int]);
        assert(w@.skip(i as int)[0] == w@[i as int]);
        v[i] < w[i]
    }
}

/// Where `k` goes among `keys`: before the first key greater than it.
pub open spec fn insert_position(keys: Seq<Seq<char>>, order: Seq<int>, k: Seq<char>) -> int
    decreases order.len(),
{
    if order.len() == 0 {
        0
    } else if str_lt(k, keys[order[0]]) {
        0
    } else {
        1 + insert_position(keys, order.drop_first(), k)
    }
}

/// The positions of `keys` in the order of a stable sort by key: each key in
/// turn goes after every key that is not greater than it.
pub open spec fn sorted_order(keys: Seq<Seq<char>>, n: nat) -> Seq<int>
    decreases n,
{
    if n == 0 {
        Seq::empty()
    } else {
        let prev = sorted_order(keys, (n - 1) as nat);
        prev.insert(insert_position(keys, prev, keys[n - 1]), n - 1)
    }
}

pub proof fn lemma_insert_position_bound(keys: Seq<Seq<char>>, order: Seq<int>, k: Seq<char>)
    ensures
        0 <= insert_position(keys, order, k) <= order.len(),
    decreases order.len(),
{
    if order.len() > 0 && !str_lt(k, keys[order[0]]) {
        lemma_insert_position_bound(keys, order.drop_first(), k);
    }
}

pub proof fn lemma_sorted_order_len(keys: Seq<Seq<char>>, n: nat)
    ensures
        sorted_order(keys, n).len() == n,
        forall|i: int| 0 <= i < n ==> 0 <= #[trigger] sorted_order(keys, n)[i] < n,
    decreases n,
{
    if n > 0 {
        let prev = sorted_order(keys, (n - 1) as nat);
        lemma_sorted_order_len(keys, (n - 1) as nat);
        lemma_insert_position_bound(keys, prev, keys[n - 1]);
        let p = insert_position(keys, prev, keys[n - 1]);
        assert forall|i: int| 0 <= i < n implies 0 <= #[trigger] sorted_order(keys, n)[i] < n by {
            if i < p {
                assert(sorted_order(keys, n)[i] == prev[i]);
            } else if i > p {
                assert(sorted_order(keys, n)[i] == prev[i - 1]);
            }
        }
    }
}

/// The positions of `keys` in the order of a stable sort by key (see
/// `sorted_order`).
pub fn sort_by_key(keys: &Vec<String>) -> (order: Vec<usize>)
    ensures
        order@.len() == keys@.len(),
        forall|i: int| 0 <= i < order@.len() ==> #[trigger] order@[i] < keys@.len(),
        Seq::new(order@.len(), |i: int| order@[i] as int) == sorted_order(
            Seq::new(keys@.len(), |i: int| keys@[i]@),
            keys@.len() as nat,
        ),
{
    let ghost kv = Seq::new(keys@.len(), |i: int| keys@[i]@);
    let mut order: Vec<usize> = Vec::new();
    let mut n: usize = 0;
    while n < keys.len()
        invariant
            n <= keys@.len(),
            kv == Seq::new(keys@.len(), |i: int| keys@[i]@),
            order@.len() == n,
            forall|i: int| 0 <= i < order@.len() ==> #[trigger] order@[i] < n,
            Seq::new(order@.len(), |i: int| order@[i] as int) == sorted_order(kv, n as nat),
        decreases keys.len() - n,
    {
        let ghost prev = sorted_order(kv, n as nat);
        let k = keys[n].as_str();
        let mut p: usize = 0;
        assert(prev.skip(0) =~= prev);
        while p < order.len() && !str_less(k, keys[order[p]].as_str())
            invariant
                n < keys@.len(),
                kv == Seq::new(keys@.len(), |i: int| keys@[i]@),
                k@ == kv[n as int],
                p <= order@.len(),
                forall|i: int| 0 <= i < order@.len() ==> #[trigger] order@[i] < n,
                prev == Seq::new(order@.len(), |i: int| order@[i] as int),
                insert_position(kv, prev, k@) == p + insert_position(kv, prev.skip(p as int), k@),
            decreases order.len() - p,
        {
            assert(prev.skip(p as int).drop_first() =~= prev.skip(p + 1));
            assert(prev.skip(p as int)[0] == order@[p as int] as int);
            p = p + 1;
        }
        proof {
            if p < order.len() {
                assert(prev.skip(p as int)[0] == order@[p as int] as int);
            }
        }
        order.insert(p, n);
        assert(Seq::new(order@.len(), |i: int| order@[i] as int) =~= prev.insert(p as int, n as int));
        n = n + 1;
    }
    order
}


/// What `insert_position` finds: no key before it is greater than `k`; the
/// key at it is.
pub proof fn lemma_insert_position(keys: Seq<Seq<char>>, order: Seq<int>, k: Seq<char>)
    ensures
        0 <= insert_position(keys, order, k) <= order.len(),
        forall|x: int|
            0 <= x < insert_position(keys, order, k) ==> !str_lt(k, #[trigger] keys[order[x]]),
        insert_position(keys, order, k) < order.len() ==> str_lt(
            k,
            keys[order[insert_position(keys, order, k)]],
        ),
    decreases order.len(),
{
    if order.len() > 0 && !str_lt(k, keys[order[0]]) {
        lemma_insert_position(keys, order.drop_first(), k);
        assert forall|x: int|
            0 <= x < insert_position(keys, order, k) implies !str_lt(k, #[trigger] keys[order[x]]) by {
            if x > 0 {
                assert(order[x] == order.drop_first()[x - 1]);
            }
        }
    }
}

/// The keys along `order` never decrease.
pub open spec fn is_sorted_by(keys: Seq<Seq<char>>, order: Seq<int>) -> bool {
    forall|i: int, j: int|
        0 <= i < j < order.len() ==> !str_lt(#[trigger] keys[order[j]], #[trigger] keys[order[i]])
}

/// Positions with equal keys keep their order.
pub open spec fn is_stable(keys: Seq<Seq<char>>, order: Seq<int>) -> bool {
    forall|i: int, j: int|
        0 <= i < j < order.len() && #[trigger] keys[order[i]] == #[trigger] keys[order[j]] ==> order[i]
            < order[j]
}

/// `order` lists each of `0..n` once.
pub open spec fn is_permutation(order: Seq<int>, n: nat) -> bool {
    &&& order.len() == n
    &&& forall|i: int| 0 <= i < n ==> 0 <= #[trigger] order[i] < n
    &&& forall|i: int, j: int| 0 <= i < j < n ==> #[trigger] order[i] != #[trigger] order[j]
}

/// `sorted_order` is the stable sort by key: it lists every position once,
/// the keys along it never decrease, and equal keys keep their order.
pub proof fn law_sorted_order(keys: Seq<Seq<char>>, n: nat)
    requires
        n <= keys.len(),
    ensures
        is_permutation(sorted_order(keys, n), n),
        is_sorted_by(keys, sorted_order(keys, n)),
        is_stable(keys, sorted_order(keys, n)),
    decreases n,
{
    if n > 0 {
        let prev = sorted_order(keys, (n - 1) as nat);
        law_sorted_order(keys, (n - 1) as nat);
        let k = keys[n - 1];
        lemma_insert_position(keys, prev, k);
        let p = insert_position(keys, prev, k);
        let o = sorted_order(keys, n);
        assert(o == prev.insert(p, n - 1));
        assert forall|i: int| 0 <= i < o.len() implies #[trigger] o[i] == (if i < p {
            prev[i]
        } else if i == p {
            n - 1
        } else {
            prev[i - 1]
        }) by {}
        // every position once
        assert forall|i: int, j: int| 0 <= i < j < n implies #[trigger] o[i] != #[trigger] o[j] by {
            if i < p && j < p {
            } else if i < p && j == p {
            } else if i < p {
                assert(prev[i] != prev[j - 1]);
            } else if i == p {
            } else {
                assert(prev[i - 1] != prev[j - 1]);
            }
        }
        // sorted
        assert forall|i: int, j: int| 0 <= i < j < o.len() implies !str_lt(
            #[trigger] keys[o[j]],
            #[trigger] keys[o[i]],
        ) by {
            if j < p {
            } else if j == p {
                // keys[prev[i]] is not greater than k
                crate::order::lemma_str_lt_total(k, keys[prev[i]]);
                if str_lt(k, keys[prev[i]]) {
                    assert(false);
                }
                lemma_str_lt_asymmetric(k, keys[prev[i]]);
                if keys[prev[i]] == k {
                    lemma_str_lt_irreflexive(k);
                }
            } else if i == p {
                // k < keys[prev[p]] <= keys[prev[j - 1]]
                let first = keys[prev[p]];
                let later = keys[prev[j - 1]];
                if j - 1 > p {
                    assert(!str_lt(later, first));
                    lemma_str_lt_total(later, first);
                    if str_lt(first, later) {
                        lemma_str_lt_transitive(k, first, later);
                    }
                }
                assert(str_lt(k, later));
                lemma_str_lt_asymmetric(k, later);
            } else if i < p {
                // keys[prev[i]] <= k < keys[prev[j - 1]]
                let a = keys[prev[i]];
                let later = keys[prev[j - 1]];
                let first = keys[prev[p]];
                if j - 1 > p {
                    lemma_str_lt_total(later, first);
                    if str_lt(first, later) {
                        lemma_str_lt_transitive(k, first, later);
                    }
                }
                assert(str_lt(k, later));
                lemma_str_lt_total(k, a);
                if str_lt(later, a) {
                    if a == k {
                        lemma_str_lt_asymmetric(k, later);
                    } else {
                        assert(str_lt(a, k));
                        lemma_str_lt_transitive(later, a, k);
                        lemma_str_lt_asymmetric(k, later);
                    }
                }
            } else {
                assert(!str_lt(keys[prev[j - 1]], keys[prev[i - 1]]));
            }
        }
        // stable
        assert forall|i: int, j: int|
            0 <= i < j < o.len() && #[trigger] keys[o[i]] == #[trigger] keys[o[j]] implies o[i]
                < o[j] by {
            if j < p {
            } else if j == p {
            } else if i == p {
                let first = keys[prev[p]];
                let later = keys[prev[j - 1]];
                if j - 1 > p {
                    lemma_str_lt_total(later, first);
                    if str_lt(first, later) {
                        lemma_str_lt_transitive(k, first, later);
                    }
                }
                assert(str_lt(k, later));
                lemma_str_lt_irreflexive(k);
            } else if i < p {
                let later = keys[prev[j - 1]];
                let first = keys[prev[p]];
                if j - 1 > p {
                    lemma_str_lt_total(later, first);
                    if str_lt(first, later) {
                        lemma_str_lt_transitive(k, first, later);
                    }
                }
                assert(str_lt(k, later));
                lemma_str_lt_asymmetric(k, later);
                assert(!str_lt(k, keys[prev[i]]));
            } else {
            }
        }
    }
}

} // verus!
