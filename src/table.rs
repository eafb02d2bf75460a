use vstd::prelude::*;

verus! {

/// Index of the first entry of `t`, from `i` on, whose key is `k`.
pub open spec fn index_by_key_from<T>(
    t: Seq<T>,
    key: spec_fn(T) -> Seq<char>,
    k: Seq<char>,
    i: int,
) -> Option<int>
    decreases t.len() - i,
{
    if i >= t.len() {
        None
    } else if key(t[i]) == k {
        Some(i)
    } else {
        index_by_key_from(t, key, k, i + 1)
    }
}

/// Index of the first entry of `t` whose key is `k`.
pub open spec fn index_by_key<T>(t: Seq<T>, key: spec_fn(T) -> Seq<char>, k: Seq<char>) -> Option<
    int,
> {
    index_by_key_from(t, key, k, 0)
}

pub proof fn lemma_index_by_key_from<T>(t: Seq<T>, key: spec_fn(T) -> Seq<char>, k: Seq<char>, i: int)
    requires
        0 <= i,
    ensures
        match index_by_key_from(t, key, k, i) {
            Some(j) => i <= j < t.len() && key(t[j]) == k && forall|m: int|
                i <= m < j ==> key(#[trigger] t[m]) != k,
            None => forall|m: int| i <= m < t.len() ==> key(#[trigger] t[m]) != k,
        },
    decreases t.len() - i,
{
    if i < t.len() && key(t[i]) != k {
        lemma_index_by_key_from(t, key, k, i + 1);
    }
}

pub proof fn lemma_index_by_key<T>(t: Seq<T>, key: spec_fn(T) -> Seq<char>, k: Seq<char>)
    ensures
        match index_by_key(t, key, k) {
            Some(j) => 0 <= j < t.len() && key(t[j]) == k && forall|m: int|
                0 <= m < j ==> key(#[trigger] t[m]) != k,
            None => forall|m: int| 0 <= m < t.len() ==> key(#[trigger] t[m]) != k,
        },
{
    lemma_index_by_key_from(t, key, k, 0);
}

/// No two entries of `t` share a key.
pub open spec fn keys_unique<T>(t: Seq<T>, key: spec_fn(T) -> Seq<char>) -> bool {
    forall|a: int, b: int| 0 <= a < t.len() && 0 <= b < t.len() && a != b ==> key(t[a]) != key(
        t[b],
    )
}

/// `t` with `x` folded in: an entry with `x`'s key becomes `combine(entry, x)`; without one, `x`
/// is appended.
pub open spec fn reconcile<T>(
    t: Seq<T>,
    x: T,
    key: spec_fn(T) -> Seq<char>,
    combine: spec_fn(T, T) -> T,
) -> Seq<T> {
    match index_by_key(t, key, key(x)) {
        Some(j) => t.update(j, combine(t[j], x)),
        None => t.push(x),
    }
}

/// `t` with the entries of `xs` folded in, in order.
pub open spec fn reconcile_all<T>(
    t: Seq<T>,
    xs: Seq<T>,
    key: spec_fn(T) -> Seq<char>,
    combine: spec_fn(T, T) -> T,
) -> Seq<T>
    decreases xs.len(),
{
    if xs.len() == 0 {
        t
    } else {
        reconcile(reconcile_all(t, xs.drop_last(), key, combine), xs.last(), key, combine)
    }
}

/// Keeps the later of two entries.
pub open spec fn take_later<T>() -> spec_fn(T, T) -> T {
    |a: T, b: T| b
}

/// Entries with distinct keys, folded into an empty table, come out as they were.
pub proof fn lemma_reconcile_distinct<T>(
    xs: Seq<T>,
    key: spec_fn(T) -> Seq<char>,
    combine: spec_fn(T, T) -> T,
)
    requires
        keys_unique(xs, key),
    ensures
        reconcile_all(Seq::empty(), xs, key, combine) == xs,
    decreases xs.len(),
{
    if xs.len() > 0 {
        let init = xs.drop_last();
        let n = xs.len() - 1;
        assert forall|a: int, b: int| 0 <= a < init.len() && 0 <= b < init.len() && a != b implies key(
            init[a],
        ) != key(init[b]) by {
            assert(init[a] == xs[a] && init[b] == xs[b]);
        }
        lemma_reconcile_distinct(init, key, combine);
        lemma_index_by_key(init, key, key(xs.last()));
        match index_by_key(init, key, key(xs.last())) {
            Some(j) => {
                assert(init[j] == xs[j]);
                assert(key(xs[j]) != key(xs[n]));
            },
            None => {},
        }
        assert(init.push(xs.last()) =~= xs);
    }
}

/// A table with distinct keys, with its own first `k` entries folded in by a `combine` that
/// leaves an entry merged with itself unchanged, comes out as it was.
pub proof fn lemma_reconcile_itself<T>(
    t: Seq<T>,
    key: spec_fn(T) -> Seq<char>,
    combine: spec_fn(T, T) -> T,
    k: int,
)
    requires
        keys_unique(t, key),
        0 <= k <= t.len(),
        forall|x: T| #[trigger] combine(x, x) == x,
    ensures
        reconcile_all(t, t.subrange(0, k), key, combine) == t,
    decreases k,
{
    if k > 0 {
        lemma_reconcile_itself(t, key, combine, k - 1);
        let pre = t.subrange(0, k);
        assert(pre.drop_last() =~= t.subrange(0, k - 1));
        let x = t[k - 1];
        assert(pre.last() == x);
        lemma_index_by_key(t, key, key(x));
        match index_by_key(t, key, key(x)) {
            Some(j) => {
                assert(j == k - 1);
            },
            None => {
                assert(key(t[k - 1]) != key(x));
            },
        }
        assert(combine(x, x) == x);
        assert(t.update(k - 1, combine(x, x)) =~= t);
    }
}

} // verus!
