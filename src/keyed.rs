//! Small associative collections kept as vectors of entries with unique keys.
//!
//! Keys are compared through their views, so a key type only has to say
//! when two of its values stand for the same key.
use vstd::prelude::*;

verus! {

/// A key of an associative collection: equality and copying by view.
pub trait KeyEq: View + Sized {
    fn key_eq(&self, other: &Self) -> (r: bool)
        ensures
            r == (self@ == other@),
    ;

    fn key_copy(&self) -> (r: Self)
        ensures
            r == *self,
    ;
}

/// No two entries share a key.
pub open spec fn keys_unique<K: View, V>(s: Seq<(K, V)>) -> bool {
    forall|i: int, j: int|
        0 <= i < s.len() && 0 <= j < s.len() && i != j ==> #[trigger] s[i].0@ != #[trigger] s[j].0@
}

/// No two items are the same key.
pub open spec fn items_unique<K: View>(s: Seq<K>) -> bool {
    forall|i: int, j: int| 0 <= i < s.len() && 0 <= j < s.len() && i != j ==> #[trigger] s[i]@ != #[trigger] s[j]@
}

/// The map that a sequence of entries stands for (a later entry wins).
pub open spec fn entries_map<K: View, V>(s: Seq<(K, V)>) -> Map<K::V, V>
    decreases s.len(),
{
    if s.len() == 0 {
        Map::empty()
    } else {
        entries_map(s.drop_last()).insert(s.last().0@, s.last().1)
    }
}

/// The set of keys that a sequence of items stands for.
pub open spec fn item_set<K: View>(s: Seq<K>) -> Set<K::V> {
    Set::new(|k: K::V| exists|i: int| 0 <= i < s.len() && #[trigger] s[i]@ == k)
}

pub proof fn lemma_entries_map_contains<K: View, V>(s: Seq<(K, V)>, k: K::V)
    ensures
        entries_map(s).contains_key(k) <==> exists|i: int| 0 <= i < s.len() && #[trigger] s[i].0@ == k,
    decreases s.len(),
{
    if s.len() > 0 {
        lemma_entries_map_contains(s.drop_last(), k);
        if entries_map(s).contains_key(k) && s.last().0@ != k {
            let i = choose|i: int| 0 <= i < s.len() - 1 && #[trigger] s.drop_last()[i].0@ == k;
            assert(s[i].0@ == k);
        }
        if exists|i: int| 0 <= i < s.len() && #[trigger] s[i].0@ == k {
            let i = choose|i: int| 0 <= i < s.len() && #[trigger] s[i].0@ == k;
            if i < s.len() - 1 {
                assert(s.drop_last()[i].0@ == k);
            }
        }
    }
}

pub proof fn lemma_entries_map_at<K: View, V>(s: Seq<(K, V)>, i: int)
    requires
        keys_unique(s),
        0 <= i < s.len(),
    ensures
        entries_map(s).contains_key(s[i].0@),
        entries_map(s)[s[i].0@] == s[i].1,
    decreases s.len(),
{
    if i < s.len() - 1 {
        let t = s.drop_last();
        assert(keys_unique(t)) by {
            assert forall|a: int, b: int|
                0 <= a < t.len() && 0 <= b < t.len() && a != b implies #[trigger] t[a].0@ != #[trigger] t[b].0@ by {
                assert(t[a] == s[a] && t[b] == s[b]);
            }
        }
        assert(t[i] == s[i]);
        lemma_entries_map_at(t, i);
        assert(s.last().0@ != s[i].0@);
    }
}

pub proof fn lemma_entries_map_update<K: View, V>(s: Seq<(K, V)>, i: int, v: V)
    requires
        keys_unique(s),
        0 <= i < s.len(),
    ensures
        keys_unique(s.update(i, (s[i].0, v))),
        entries_map(s.update(i, (s[i].0, v))) == entries_map(s).insert(s[i].0@, v),
{
    let u = s.update(i, (s[i].0, v));
    assert(keys_unique(u)) by {
        assert forall|a: int, b: int|
            0 <= a < u.len() && 0 <= b < u.len() && a != b implies #[trigger] u[a].0@ != #[trigger] u[b].0@ by {
            assert(u[a].0 == s[a].0 && u[b].0 == s[b].0);
        }
    }
    let m1 = entries_map(u);
    let m2 = entries_map(s).insert(s[i].0@, v);
    assert forall|k: K::V| m1.contains_key(k) <==> m2.contains_key(k) by {
        lemma_entries_map_contains(u, k);
        lemma_entries_map_contains(s, k);
        if exists|j: int| 0 <= j < s.len() && #[trigger] s[j].0@ == k {
            let j = choose|j: int| 0 <= j < s.len() && #[trigger] s[j].0@ == k;
            assert(u[j].0@ == k);
        }
        if exists|j: int| 0 <= j < u.len() && #[trigger] u[j].0@ == k {
            let j = choose|j: int| 0 <= j < u.len() && #[trigger] u[j].0@ == k;
            assert(s[j].0@ == k);
        }
    }
    assert forall|k: K::V| m1.contains_key(k) implies m1[k] == m2[k] by {
        lemma_entries_map_contains(u, k);
        let j = choose|j: int| 0 <= j < u.len() && #[trigger] u[j].0@ == k;
        lemma_entries_map_at(u, j);
        if j != i {
            lemma_entries_map_at(s, j);
        }
    }
    assert(m1 =~= m2);
}

pub proof fn lemma_entries_map_push<K: View, V>(s: Seq<(K, V)>, k: K, v: V)
    requires
        keys_unique(s),
        !entries_map(s).contains_key(k@),
    ensures
        keys_unique(s.push((k, v))),
        entries_map(s.push((k, v))) == entries_map(s).insert(k@, v),
{
    let u = s.push((k, v));
    assert(u.drop_last() =~= s);
    assert(keys_unique(u)) by {
        assert forall|a: int, b: int|
            0 <= a < u.len() && 0 <= b < u.len() && a != b implies #[trigger] u[a].0@ != #[trigger] u[b].0@ by {
            if a == s.len() {
                lemma_entries_map_contains(s, k@);
                assert(u[b] == s[b]);
            } else if b == s.len() {
                lemma_entries_map_contains(s, k@);
                assert(u[a] == s[a]);
            } else {
                assert(u[a] == s[a] && u[b] == s[b]);
            }
        }
    }
}

pub proof fn lemma_item_set_push<K: View>(s: Seq<K>, k: K)
    ensures
        item_set(s.push(k)) == item_set(s).insert(k@),
{
    let u = s.push(k);
    assert forall|x: K::V| item_set(u).contains(x) <==> item_set(s).insert(k@).contains(x) by {
        if item_set(s).contains(x) {
            let i = choose|i: int| 0 <= i < s.len() && #[trigger] s[i]@ == x;
            assert(u[i]@ == x);
        }
        if item_set(u).contains(x) && x != k@ {
            let i = choose|i: int| 0 <= i < u.len() && #[trigger] u[i]@ == x;
            assert(s[i]@ == x);
        }
        if x == k@ {
            assert(u[s.len() as int]@ == x);
        }
    }
    assert(item_set(u) =~= item_set(s).insert(k@));
}

/// Every entry's set of items has no repeats, and keys are unique.
pub open spec fn set_map_wf<K: View, T: View>(s: Seq<(K, Vec<T>)>) -> bool {
    &&& keys_unique(s)
    &&& forall|i: int| 0 <= i < s.len() ==> items_unique(#[trigger] s[i].1@)
}

/// The map from keys to sets that a sequence of entries stands for.
pub open spec fn set_map_view<K: View, T: View>(s: Seq<(K, Vec<T>)>) -> Map<K::V, Set<T::V>> {
    entries_map(s).map_values(|v: Vec<T>| item_set(v@))
}

/// Every entry's inner entries have unique keys, and outer keys are unique.
pub open spec fn nested_wf<K: View, K2: View, V>(s: Seq<(K, Vec<(K2, V)>)>) -> bool {
    &&& keys_unique(s)
    &&& forall|i: int| 0 <= i < s.len() ==> keys_unique(#[trigger] s[i].1@)
}

/// The map of maps that a sequence of nested entries stands for.
pub open spec fn nested_view<K: View, K2: View, V>(s: Seq<(K, Vec<(K2, V)>)>) -> Map<
    K::V,
    Map<K2::V, V>,
> {
    entries_map(s).map_values(|v: Vec<(K2, V)>| entries_map(v@))
}

/// `m` with `t` added to the set under `k` (an empty set if there was none).
pub open spec fn set_map_add<K, T>(m: Map<K, Set<T>>, k: K, t: T) -> Map<K, Set<T>> {
    m.insert(k, set_at(m, k).insert(t))
}

/// The set under `k`, or the empty set.
pub open spec fn set_at<K, T>(m: Map<K, Set<T>>, k: K) -> Set<T> {
    if m.contains_key(k) {
        m[k]
    } else {
        Set::empty()
    }
}

/// The inner map under `k`, or the empty map.
pub open spec fn map_at<K, K2, V>(m: Map<K, Map<K2, V>>, k: K) -> Map<K2, V> {
    if m.contains_key(k) {
        m[k]
    } else {
        Map::empty()
    }
}

/// `m` with an entry for `k`, empty where there was none.
pub open spec fn touch<K, W>(m: Map<K, W>, k: K, empty: W) -> Map<K, W> {
    if m.contains_key(k) {
        m
    } else {
        m.insert(k, empty)
    }
}

proof fn lemma_entries_map_replace<K: View, V>(s: Seq<(K, V)>, i: int, k: K, v: V)
    requires
        keys_unique(s),
        0 <= i < s.len(),
        k@ == s[i].0@,
    ensures
        keys_unique(s.update(i, (k, v))),
        entries_map(s.update(i, (k, v))) == entries_map(s).insert(k@, v),
{
    let u = s.update(i, (k, v));
    assert(keys_unique(u)) by {
        assert forall|a: int, b: int|
            0 <= a < u.len() && 0 <= b < u.len() && a != b implies #[trigger] u[a].0@ != #[trigger] u[b].0@ by {
            assert(u[a].0@ == s[a].0@ && u[b].0@ == s[b].0@);
        }
    }
    let m1 = entries_map(u);
    let m2 = entries_map(s).insert(k@, v);
    assert forall|x: K::V| m1.contains_key(x) <==> m2.contains_key(x) by {
        lemma_entries_map_contains(u, x);
        lemma_entries_map_contains(s, x);
        if exists|j: int| 0 <= j < s.len() && #[trigger] s[j].0@ == x {
            let j = choose|j: int| 0 <= j < s.len() && #[trigger] s[j].0@ == x;
            assert(u[j].0@ == x);
        }
        if exists|j: int| 0 <= j < u.len() && #[trigger] u[j].0@ == x {
            let j = choose|j: int| 0 <= j < u.len() && #[trigger] u[j].0@ == x;
            assert(s[j].0@ == x);
        }
    }
    assert forall|x: K::V| m1.contains_key(x) implies m1[x] == m2[x] by {
        lemma_entries_map_contains(u, x);
        let j = choose|j: int| 0 <= j < u.len() && #[trigger] u[j].0@ == x;
        lemma_entries_map_at(u, j);
        if j != i {
            lemma_entries_map_at(s, j);
        }
    }
    assert(m1 =~= m2);
}

/// Puts `v` under `k`, replacing what was there.
pub fn map_put<K: KeyEq, V>(entries: &mut Vec<(K, V)>, k: K, v: V)
    requires
        keys_unique(old(entries)@),
    ensures
        keys_unique(final(entries)@),
        entries_map(final(entries)@) == entries_map(old(entries)@).insert(k@, v),
{
    match find_entry(entries, &k) {
        Some(i) => {
            proof {
                lemma_entries_map_replace(entries@, i as int, k, v);
            }
            entries.set(i, (k, v));
        },
        None => {
            proof {
                lemma_entries_map_contains(entries@, k@);
                lemma_entries_map_push(entries@, k, v);
            }
            entries.push((k, v));
        },
    }
}

/// Makes sure there is an entry under `k`, with no items where there was none.
pub fn set_map_touch<K: KeyEq, T: KeyEq>(entries: &mut Vec<(K, Vec<T>)>, k: K) -> (r: usize)
    requires
        set_map_wf(old(entries)@),
    ensures
        set_map_wf(final(entries)@),
        set_map_view(final(entries)@) == touch(set_map_view(old(entries)@), k@, Set::empty()),
        r < final(entries)@.len(),
        final(entries)@[r as int].0@ == k@,
        final(entries)@.len() >= old(entries)@.len(),
        forall|i: int| 0 <= i < old(entries)@.len() ==> #[trigger] final(entries)@[i] == old(entries)@[i],
{
    match find_entry(entries, &k) {
        Some(i) => {
            proof {
                lemma_entries_map_contains(entries@, k@);
                assert(set_map_view(entries@) =~= touch(set_map_view(entries@), k@, Set::empty()));
            }
            i
        },
        None => {
            let ghost s = entries@;
            let empty: Vec<T> = Vec::new();
            proof {
                lemma_entries_map_contains(entries@, k@);
                lemma_entries_map_push(entries@, k, empty);
            }
            entries.push((k, empty));
            proof {
                assert(item_set(empty@) =~= Set::empty());
                assert(set_map_view(entries@) =~= set_map_view(s).insert(k@, Set::empty()));
            }
            entries.len() - 1
        },
    }
}

/// Adds `t` to the set under `k`.
pub fn set_map_insert<K: KeyEq, T: KeyEq>(entries: &mut Vec<(K, Vec<T>)>, k: K, t: T)
    requires
        set_map_wf(old(entries)@),
    ensures
        set_map_wf(final(entries)@),
        set_map_view(final(entries)@) == set_map_add(set_map_view(old(entries)@), k@, t@),
{
    let ghost s0 = entries@;
    let ghost k0 = k@;
    let ghost t0 = t@;
    let i = set_map_touch(entries, k);
    let ghost s1 = entries@;
    proof {
        lemma_entries_map_at(s1, i as int);
    }
    insert_item(&mut entries[i].1, t);
    proof {
        let inner = entries@[i as int].1;
        assert(entries@ == s1.update(i as int, (s1[i as int].0, inner)));
        lemma_entries_map_update(s1, i as int, inner);
        assert forall|j: int| 0 <= j < entries@.len() implies items_unique(#[trigger] entries@[j].1@) by {
            if j != i {
                assert(entries@[j] == s1[j]);
            }
        }
        assert(set_map_view(s1)[k0] == set_at(set_map_view(s0), k0));
        assert(item_set(inner@) == item_set(s1[i as int].1@).insert(t0));
        assert(set_map_view(entries@) =~= set_map_view(s1).insert(k0, item_set(inner@)));
        assert(set_map_view(entries@) =~= set_map_add(set_map_view(s0), k0, t0));
    }
}

/// Makes sure there is an entry under `k`, with an empty inner map where there was none.
pub fn nested_touch<K: KeyEq, K2: KeyEq, V>(entries: &mut Vec<(K, Vec<(K2, V)>)>, k: K) -> (r: usize)
    requires
        nested_wf(old(entries)@),
    ensures
        nested_wf(final(entries)@),
        nested_view(final(entries)@) == touch(nested_view(old(entries)@), k@, Map::empty()),
        r < final(entries)@.len(),
        final(entries)@[r as int].0@ == k@,
{
    match find_entry(entries, &k) {
        Some(i) => {
            proof {
                lemma_entries_map_contains(entries@, k@);
                assert(nested_view(entries@) =~= touch(nested_view(entries@), k@, Map::empty()));
            }
            i
        },
        None => {
            let ghost s = entries@;
            let empty: Vec<(K2, V)> = Vec::new();
            proof {
                lemma_entries_map_contains(entries@, k@);
                lemma_entries_map_push(entries@, k, empty);
            }
            entries.push((k, empty));
            proof {
                assert(entries_map(empty@) =~= Map::empty());
                assert(nested_view(entries@) =~= nested_view(s).insert(k@, Map::empty()));
            }
            entries.len() - 1
        },
    }
}

/// Puts `v` under `k2` in the inner map under `k`.
pub fn nested_put<K: KeyEq, K2: KeyEq, V>(entries: &mut Vec<(K, Vec<(K2, V)>)>, k: K, k2: K2, v: V)
    requires
        nested_wf(old(entries)@),
    ensures
        nested_wf(final(entries)@),
        nested_view(final(entries)@) == nested_view(old(entries)@).insert(
            k@,
            map_at(nested_view(old(entries)@), k@).insert(k2@, v),
        ),
{
    let ghost s0 = entries@;
    let ghost k0 = k@;
    let ghost k20 = k2@;
    let i = nested_touch(entries, k);
    let ghost s1 = entries@;
    proof {
        lemma_entries_map_at(s1, i as int);
    }
    map_put(&mut entries[i].1, k2, v);
    proof {
        let inner = entries@[i as int].1;
        assert(entries@ == s1.update(i as int, (s1[i as int].0, inner)));
        lemma_entries_map_update(s1, i as int, inner);
        assert forall|j: int| 0 <= j < entries@.len() implies keys_unique(#[trigger] entries@[j].1@) by {
            if j != i {
                assert(entries@[j] == s1[j]);
            }
        }
        assert(nested_view(s1)[k0] == map_at(nested_view(s0), k0));
        assert(nested_view(entries@) =~= nested_view(s1).insert(k0, entries_map(inner@)));
        assert(nested_view(entries@) =~= nested_view(s0).insert(
            k0,
            map_at(nested_view(s0), k0).insert(k20, v),
        ));
    }
}

/// The key-wise union of two maps of sets.
pub open spec fn merge_sets<K, T>(a: Map<K, Set<T>>, b: Map<K, Set<T>>) -> Map<K, Set<T>> {
    Map::new(
        |k: K| a.contains_key(k) || b.contains_key(k),
        |k: K| set_at(a, k).union(set_at(b, k)),
    )
}

/// The key-wise merge of two maps of maps; on a shared inner key `b` wins.
pub open spec fn merge_nested<K, K2, V>(a: Map<K, Map<K2, V>>, b: Map<K, Map<K2, V>>) -> Map<
    K,
    Map<K2, V>,
> {
    Map::new(
        |k: K| a.contains_key(k) || b.contains_key(k),
        |k: K| map_at(a, k).union_prefer_right(map_at(b, k)),
    )
}

proof fn lemma_merge_sets_step<K, T>(m0: Map<K, Set<T>>, mi: Map<K, Set<T>>, k: K, x: Set<T>)
    requires
        !mi.contains_key(k),
    ensures
        ({
            let v1 = touch(merge_sets(m0, mi), k, Set::empty());
            merge_sets(m0, mi.insert(k, x)) == v1.insert(k, set_at(v1, k).union(x))
        }),
{
    let v1 = touch(merge_sets(m0, mi), k, Set::empty());
    let a = merge_sets(m0, mi.insert(k, x));
    let b = v1.insert(k, set_at(v1, k).union(x));
    assert forall|y: K| a.contains_key(y) implies a[y] == b[y] by {
        if y == k {
            assert(set_at(v1, k) =~= set_at(m0, k).union(Set::empty()));
            assert(set_at(v1, k) =~= set_at(m0, k));
        }
    }
    assert(a =~= b);
}

pub proof fn lemma_merge_sets_empty<K, T>(m0: Map<K, Set<T>>)
    ensures
        merge_sets(m0, Map::empty()) == m0,
{
    let a = merge_sets(m0, Map::empty());
    assert forall|y: K| a.contains_key(y) implies a[y] == m0[y] by {
        assert(set_at(m0, y).union(Set::empty()) =~= m0[y]);
    }
    assert(a =~= m0);
}

proof fn lemma_merge_nested_step<K, K2, V>(
    m0: Map<K, Map<K2, V>>,
    mi: Map<K, Map<K2, V>>,
    k: K,
    x: Map<K2, V>,
)
    requires
        !mi.contains_key(k),
    ensures
        ({
            let v1 = touch(merge_nested(m0, mi), k, Map::empty());
            merge_nested(m0, mi.insert(k, x)) == v1.insert(k, map_at(v1, k).union_prefer_right(x))
        }),
{
    let v1 = touch(merge_nested(m0, mi), k, Map::empty());
    let a = merge_nested(m0, mi.insert(k, x));
    let b = v1.insert(k, map_at(v1, k).union_prefer_right(x));
    assert forall|y: K| a.contains_key(y) implies a[y] == b[y] by {
        if y == k {
            assert(map_at(v1, k) =~= map_at(m0, k));
        }
    }
    assert(a =~= b);
}

pub proof fn lemma_merge_nested_empty<K, K2, V>(m0: Map<K, Map<K2, V>>)
    ensures
        merge_nested(m0, Map::empty()) == m0,
{
    let a = merge_nested(m0, Map::empty());
    assert forall|y: K| a.contains_key(y) implies a[y] == m0[y] by {
        assert(map_at(m0, y).union_prefer_right(Map::empty()) =~= m0[y]);
    }
    assert(a =~= m0);
}

/// The items of `v` in the opposite order.
pub fn reversed<T>(v: Vec<T>) -> (r: Vec<T>)
    ensures
        r@.len() == v@.len(),
        forall|j: int| 0 <= j < v@.len() ==> #[trigger] r@[j] == v@[v@.len() - 1 - j],
{
    let ghost orig = v@;
    let mut v = v;
    let mut r: Vec<T> = Vec::new();
    while v.len() > 0
        invariant
            v@.len() + r@.len() == orig.len(),
            v@ == orig.take(v@.len() as int),
            forall|j: int| 0 <= j < r@.len() ==> #[trigger] r@[j] == orig[orig.len() - 1 - j],
        decreases v@.len(),
    {
        let x = v.pop().unwrap();
        r.push(x);
    }
    r
}

proof fn lemma_entries_map_take_step<K: View, V>(s: Seq<(K, V)>, i: int)
    requires
        0 <= i < s.len(),
    ensures
        entries_map(s.take(i + 1)) == entries_map(s.take(i)).insert(s[i].0@, s[i].1),
{
    assert(s.take(i + 1).drop_last() =~= s.take(i));
}

/// Puts every entry of `other`, in order, replacing what was there.
pub fn map_extend<K: KeyEq, V>(entries: &mut Vec<(K, V)>, other: Vec<(K, V)>)
    requires
        keys_unique(old(entries)@),
    ensures
        keys_unique(final(entries)@),
        entries_map(final(entries)@) == entries_map(old(entries)@).union_prefer_right(
            entries_map(other@),
        ),
{
    let ghost orig = other@;
    let ghost m0 = entries_map(entries@);
    let mut rest = reversed(other);
    let n = rest.len();
    assert(orig.take(0) =~= Seq::<(K, V)>::empty());
    assert(m0.union_prefer_right(Map::empty()) =~= m0);
    while rest.len() > 0
        invariant
            n == orig.len(),
            rest@.len() <= n,
            forall|j: int| 0 <= j < rest@.len() ==> #[trigger] rest@[j] == orig[n - 1 - j],
            keys_unique(entries@),
            entries_map(entries@) == m0.union_prefer_right(entries_map(orig.take(n - rest@.len()))),
        decreases rest@.len(),
    {
        let ghost i = n - rest@.len();
        let (k, v) = rest.pop().unwrap();
        proof {
            lemma_entries_map_take_step(orig, i);
        }
        let ghost before = entries_map(entries@);
        map_put(entries, k, v);
        proof {
            assert(entries_map(entries@) =~= m0.union_prefer_right(entries_map(orig.take(i + 1))));
        }
    }
    assert(orig.take(n as int) =~= orig);
}

/// Adds every item of `other` to a vector of unique items.
pub fn items_extend<K: KeyEq>(items: &mut Vec<K>, other: &Vec<K>)
    requires
        items_unique(old(items)@),
    ensures
        items_unique(final(items)@),
        item_set(final(items)@) == item_set(old(items)@).union(item_set(other@)),
{
    let ghost s0 = item_set(items@);
    let mut i: usize = 0;
    while i < other.len()
        invariant
            i <= other@.len(),
            items_unique(items@),
            item_set(items@) == s0.union(item_set(other@.take(i as int))),
        decreases other@.len() - i,
    {
        proof {
            assert(other@.take(i + 1) =~= other@.take(i as int).push(other@[i as int]));
            lemma_item_set_push(other@.take(i as int), other@[i as int]);
        }
        insert_item(items, other[i].key_copy());
        i = i + 1;
        proof {
            assert(item_set(items@) =~= s0.union(item_set(other@.take(i as int))));
        }
    }
    assert(other@.take(i as int) =~= other@);
}

/// Adds the items of each entry of `other` to the set under its key.
pub fn set_map_extend<K: KeyEq, T: KeyEq>(entries: &mut Vec<(K, Vec<T>)>, other: &Vec<(K, Vec<T>)>)
    requires
        set_map_wf(old(entries)@),
        keys_unique(other@),
    ensures
        set_map_wf(final(entries)@),
        set_map_view(final(entries)@) == merge_sets(
            set_map_view(old(entries)@),
            set_map_view(other@),
        ),
{
    let ghost m0 = set_map_view(entries@);
    let mut i: usize = 0;
    assert(other@.take(0) =~= Seq::<(K, Vec<T>)>::empty());
    assert(set_map_view(other@.take(0)) =~= Map::empty());
    proof {
        lemma_merge_sets_empty(m0);
    }
    while i < other.len()
        invariant
            i <= other@.len(),
            keys_unique(other@),
            set_map_wf(entries@),
            set_map_view(entries@) == merge_sets(m0, set_map_view(other@.take(i as int))),
        decreases other@.len() - i,
    {
        let ghost o = other@;
        let ghost k = o[i as int].0@;
        let ghost mi = set_map_view(o.take(i as int));
        proof {
            lemma_entries_map_take_step(o, i as int);
            lemma_entries_map_contains(o.take(i as int), k);
            if entries_map(o.take(i as int)).contains_key(k) {
                let j = choose|j: int| 0 <= j < i && #[trigger] o.take(i as int)[j].0@ == k;
                assert(o[j].0@ == k);
            }
        }
        let ghost s1 = entries@;
        let idx = set_map_touch(entries, other[i].0.key_copy());
        let ghost s2 = entries@;
        proof {
            lemma_entries_map_at(s2, idx as int);
        }
        items_extend(&mut entries[idx].1, &other[i].1);
        proof {
            let inner = entries@[idx as int].1;
            assert(entries@ == s2.update(idx as int, (s2[idx as int].0, inner)));
            lemma_entries_map_update(s2, idx as int, inner);
            assert forall|j: int| 0 <= j < entries@.len() implies items_unique(#[trigger] entries@[j].1@) by {
                if j != idx {
                    assert(entries@[j] == s2[j]);
                }
            }
            assert(set_map_view(o.take(i + 1)) =~= mi.insert(k, item_set(o[i as int].1@)));
            lemma_merge_sets_step(m0, mi, k, item_set(o[i as int].1@));
            assert(set_map_view(entries@) =~= set_map_view(s2).insert(k, item_set(inner@)));
            assert(set_map_view(entries@) =~= merge_sets(m0, set_map_view(o.take(i + 1))));
        }
        i = i + 1;
    }
    assert(other@.take(i as int) =~= other@);
}

/// Merges each entry of `other` into the inner map under its key.
pub fn nested_extend<K: KeyEq, K2: KeyEq, V>(
    entries: &mut Vec<(K, Vec<(K2, V)>)>,
    other: Vec<(K, Vec<(K2, V)>)>,
)
    requires
        nested_wf(old(entries)@),
        keys_unique(other@),
    ensures
        nested_wf(final(entries)@),
        nested_view(final(entries)@) == merge_nested(
            nested_view(old(entries)@),
            nested_view(other@),
        ),
{
    let ghost orig = other@;
    let ghost m0 = nested_view(entries@);
    let mut rest = reversed(other);
    let n = rest.len();
    assert(orig.take(0) =~= Seq::<(K, Vec<(K2, V)>)>::empty());
    assert(nested_view(orig.take(0)) =~= Map::empty());
    proof {
        lemma_merge_nested_empty(m0);
    }
    while rest.len() > 0
        invariant
            n == orig.len(),
            keys_unique(orig),
            rest@.len() <= n,
            forall|j: int| 0 <= j < rest@.len() ==> #[trigger] rest@[j] == orig[n - 1 - j],
            nested_wf(entries@),
            nested_view(entries@) == merge_nested(m0, nested_view(orig.take(n - rest@.len()))),
        decreases rest@.len(),
    {
        let ghost i = n - rest@.len();
        let ghost k = orig[i].0@;
        let ghost mi = nested_view(orig.take(i));
        let (key, inner) = rest.pop().unwrap();
        proof {
            lemma_entries_map_take_step(orig, i);
            lemma_entries_map_contains(orig.take(i), k);
            if entries_map(orig.take(i)).contains_key(k) {
                let j = choose|j: int| 0 <= j < i && #[trigger] orig.take(i)[j].0@ == k;
                assert(orig[j].0@ == k);
            }
        }
        let ghost inner_map = entries_map(inner@);
        let idx = nested_touch(entries, key);
        let ghost s2 = entries@;
        proof {
            lemma_entries_map_at(s2, idx as int);
        }
        map_extend(&mut entries[idx].1, inner);
        proof {
            let new_inner = entries@[idx as int].1;
            assert(entries@ == s2.update(idx as int, (s2[idx as int].0, new_inner)));
            lemma_entries_map_update(s2, idx as int, new_inner);
            assert forall|j: int| 0 <= j < entries@.len() implies keys_unique(#[trigger] entries@[j].1@) by {
                if j != idx {
                    assert(entries@[j] == s2[j]);
                }
            }
            assert(nested_view(orig.take(i + 1)) =~= mi.insert(k, inner_map));
            lemma_merge_nested_step(m0, mi, k, inner_map);
            assert(nested_view(entries@) =~= nested_view(s2).insert(k, entries_map(new_inner@)));
            assert(nested_view(entries@) =~= merge_nested(m0, nested_view(orig.take(i + 1))));
        }
    }
    assert(orig.take(n as int) =~= orig);
}

/// Index of the entry whose key is `k`, if any.
pub fn find_entry<K: KeyEq, V>(entries: &Vec<(K, V)>, k: &K) -> (r: Option<usize>)
    ensures
        match r {
            Some(i) => i < entries@.len() && entries@[i as int].0@ == k@,
            None => forall|i: int| 0 <= i < entries@.len() ==> #[trigger] entries@[i].0@ != k@,
        },
{
    let mut i: usize = 0;
    while i < entries.len()
        invariant
            i <= entries@.len(),
            forall|j: int| 0 <= j < i ==> #[trigger] entries@[j].0@ != k@,
        decreases entries@.len() - i,
    {
        if entries[i].0.key_eq(k) {
            return Some(i);
        }
        i = i + 1;
    }
    None
}

/// Index of the item equal to `k`, if any.
pub fn find_item<K: KeyEq>(items: &Vec<K>, k: &K) -> (r: Option<usize>)
    ensures
        match r {
            Some(i) => i < items@.len() && items@[i as int]@ == k@,
            None => !item_set(items@).contains(k@),
        },
{
    let mut i: usize = 0;
    while i < items.len()
        invariant
            i <= items@.len(),
            forall|j: int| 0 <= j < i ==> #[trigger] items@[j]@ != k@,
        decreases items@.len() - i,
    {
        if items[i].key_eq(k) {
            return Some(i);
        }
        i = i + 1;
    }
    None
}

/// Adds `k` to a vector of unique items unless it is there already.
pub fn insert_item<K: KeyEq>(items: &mut Vec<K>, k: K)
    requires
        items_unique(old(items)@),
    ensures
        items_unique(final(items)@),
        item_set(final(items)@) == item_set(old(items)@).insert(k@),
{
    match find_item(items, &k) {
        Some(i) => {
            proof {
                assert(item_set(items@).contains(k@));
                assert(item_set(items@).insert(k@) =~= item_set(items@));
            }
        },
        None => {
            proof {
                lemma_item_set_push(items@, k);
                assert forall|j: int| 0 <= j < items@.len() implies items@[j]@ != k@ by {
                    if items@[j]@ == k@ {
                        assert(item_set(items@).contains(k@));
                    }
                }
            }
            items.push(k);
        },
    }
}

} // verus!
