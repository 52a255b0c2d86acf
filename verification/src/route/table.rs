use vstd::prelude::*;
use crate::method::{Method, MethodView};

verus! {

/// The index of the first entry among the first `n` of `t` whose key is `k`,
/// or -1 where there is none.
pub open spec fn key_index_in<K, V>(t: Seq<(K, V)>, k: K, n: int) -> int
    decreases n,
{
    if n <= 0 {
        -1
    } else {
        let r = key_index_in(t, k, n - 1);
        if r >= 0 {
            r
        } else if t[n - 1].0 == k {
            n - 1
        } else {
            -1
        }
    }
}

/// The index of the first entry of `t` with key `k`, or -1.
pub open spec fn key_index<K, V>(t: Seq<(K, V)>, k: K) -> int {
    key_index_in(t, k, t.len() as int)
}

/// The value of the first entry of `t` with key `k`.
pub open spec fn table_get<K, V>(t: Seq<(K, V)>, k: K) -> Option<V> {
    let i = key_index(t, k);
    if 0 <= i {
        Some(t[i].1)
    } else {
        None
    }
}

/// `t` with `k` bound to `v`: the first entry with key `k` replaced where
/// there is one, else a new entry at the end.
pub open spec fn table_insert<K, V>(t: Seq<(K, V)>, k: K, v: V) -> Seq<(K, V)> {
    let i = key_index(t, k);
    if 0 <= i {
        t.update(i, (k, v))
    } else {
        t.push((k, v))
    }
}

/// A table keyed by methods, with the keys as mathematical values.
pub open spec fn method_table_view<H>(t: Seq<(Method, H)>) -> Seq<(MethodView, H)> {
    t.map_values(|e: (Method, H)| (e.0@, e.1))
}

/// What `key_index_in` finds: -1 where no entry among the first `n` has the
/// key, else the first one that does.
pub proof fn lemma_key_index_in<K, V>(t: Seq<(K, V)>, k: K, n: int)
    requires
        0 <= n <= t.len(),
    ensures
        key_index_in(t, k, n) == -1 || 0 <= key_index_in(t, k, n) < n,
        key_index_in(t, k, n) == -1 ==> forall|j: int| 0 <= j < n ==> #[trigger] t[j].0 != k,
        key_index_in(t, k, n) >= 0 ==> t[key_index_in(t, k, n)].0 == k,
        key_index_in(t, k, n) >= 0 ==> forall|j: int|
            0 <= j < key_index_in(t, k, n) ==> #[trigger] t[j].0 != k,
    decreases n,
{
    if n > 0 {
        lemma_key_index_in(t, k, n - 1);
    }
}

/// Once the first `i` entries miss and entry `i` has the key, `key_index_in`
/// is `i` for every longer prefix.
proof fn lemma_key_index_in_after_hit<K, V>(t: Seq<(K, V)>, k: K, i: int, n: int)
    requires
        0 <= i < n <= t.len(),
        key_index_in(t, k, i) == -1,
        t[i].0 == k,
    ensures
        key_index_in(t, k, n) == i,
    decreases n,
{
    if n > i + 1 {
        lemma_key_index_in_after_hit(t, k, i, n - 1);
    }
}

/// `key_index_in` depends only on the keys of the first `n` entries.
proof fn lemma_key_index_in_same_keys<K, V>(t1: Seq<(K, V)>, t2: Seq<(K, V)>, k: K, n: int)
    requires
        0 <= n <= t1.len(),
        n <= t2.len(),
        forall|j: int| 0 <= j < n ==> (#[trigger] t1[j].0 == k) == (t2[j].0 == k),
    ensures
        key_index_in(t1, k, n) == key_index_in(t2, k, n),
    decreases n,
{
    if n > 0 {
        lemma_key_index_in_same_keys(t1, t2, k, n - 1);
    }
}

/// Reading a key right after binding it gives the value bound; every other key
/// reads as before.
pub proof fn lemma_table_get_after_insert<K, V>(t: Seq<(K, V)>, k: K, v: V, other: K)
    ensures
        table_get(table_insert(t, k, v), k) == Some(v),
        other != k ==> table_get(table_insert(t, k, v), other) == table_get(t, other),
{
    let t2 = table_insert(t, k, v);
    let i = key_index(t, k);
    lemma_key_index_in(t, k, t.len() as int);
    lemma_key_index_in(t, other, t.len() as int);
    if 0 <= i {
        lemma_key_index_in_same_keys(t, t2, k, i);
        lemma_key_index_in(t, k, i);
        lemma_key_index_in_after_hit(t2, k, i, t2.len() as int);
        if other != k {
            lemma_key_index_in_same_keys(t, t2, other, t.len() as int);
        }
    } else {
        lemma_key_index_in_same_keys(t, t2, k, t.len() as int);
        if other != k {
            lemma_key_index_in_same_keys(t, t2, other, t.len() as int);
            let j = key_index_in(t, other, t.len() as int);
            if j >= 0 {
            }
        }
    }
}

/// The position of `m` among the keys of `t`, as `key_index` gives it.
pub fn find_method<H>(t: &Vec<(Method, H)>, m: &Method) -> (r: Option<usize>)
    ensures
        match r {
            Some(i) => i < t.len() && i as int == key_index(method_table_view(t@), m@),
            None => key_index(method_table_view(t@), m@) == -1,
        },
{
    let ghost tv = method_table_view(t@);
    let mut i: usize = 0;
    while i < t.len()
        invariant
            i <= t.len(),
            tv == method_table_view(t@),
            tv.len() == t@.len(),
            key_index_in(tv, m@, i as int) == -1,
        decreases t.len() - i,
    {
        if t[i].0.same_as(m) {
            proof {
                lemma_key_index_in_after_hit(tv, m@, i as int, tv.len() as int);
            }
            return Some(i);
        }
        i = i + 1;
    }
    None
}

/// Binds `m` to `h` in `t`, as `table_insert` states.
pub fn insert_method<H>(t: &mut Vec<(Method, H)>, m: Method, h: H)
    ensures
        method_table_view(final(t)@) == table_insert(method_table_view(old(t)@), m@, h),
{
    match find_method(t, &m) {
        Some(i) => {
            t.set(i, (m, h));
        },
        None => {
            t.push((m, h));
        },
    }
}

} // verus!
