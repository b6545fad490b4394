//! Keys ordered as `String`'s `Ord` orders them (lexicographically by
//! character), and maps kept as key-sorted entry sequences, as a `BTreeMap`
//! keeps and iterates them.
use vstd::prelude::*;

verus! {

/// `a < b` in lexicographic order of characters.
pub open spec fn key_lt(a: Seq<char>, b: Seq<char>) -> bool
    decreases a.len(),
{
    if a.len() == 0 {
        b.len() > 0
    } else if b.len() == 0 {
        false
    } else if a[0] != b[0] {
        (a[0] as int) < (b[0] as int)
    } else {
        key_lt(a.drop_first(), b.drop_first())
    }
}

pub proof fn lemma_key_lt_irreflexive(a: Seq<char>)
    ensures
        !key_lt(a, a),
    decreases a.len(),
{
    if a.len() > 0 {
        lemma_key_lt_irreflexive(a.drop_first());
    }
}

pub proof fn lemma_key_lt_transitive(a: Seq<char>, b: Seq<char>, c: Seq<char>)
    requires
        key_lt(a, b),
        key_lt(b, c),
    ensures
        key_lt(a, c),
    decreases a.len(),
{
    if a.len() > 0 && b.len() > 0 && c.len() > 0 && a[0] == b[0] && b[0] == c[0] {
        lemma_key_lt_transitive(a.drop_first(), b.drop_first(), c.drop_first());
    }
}

pub proof fn lemma_key_lt_total(a: Seq<char>, b: Seq<char>)
    ensures
        a == b || key_lt(a, b) || key_lt(b, a),
    decreases a.len(),
{
    if a.len() > 0 && b.len() > 0 && a[0] == b[0] {
        lemma_key_lt_total(a.drop_first(), b.drop_first());
        if a.drop_first() == b.drop_first() {
            assert(a =~= seq![a[0]] + a.drop_first());
            assert(b =~= seq![b[0]] + b.drop_first());
        }
    } else if a.len() == 0 && b.len() == 0 {
        assert(a =~= b);
    } else if a.len() > 0 && b.len() > 0 {
        assert((a[0] as int) != (b[0] as int));
    }
}

pub proof fn lemma_key_lt_asymmetric(a: Seq<char>, b: Seq<char>)
    requires
        key_lt(a, b),
    ensures
        !key_lt(b, a),
{
    if key_lt(b, a) {
        lemma_key_lt_transitive(a, b, a);
        lemma_key_lt_irreflexive(a);
    }
}

/// Keys strictly ascending (so each key occurs once).
pub open spec fn sorted_keys<V>(es: Seq<(Seq<char>, V)>) -> bool {
    forall|i: int, j: int| 0 <= i < j < es.len() ==> key_lt(#[trigger] es[i].0, #[trigger] es[j].0)
}

/// The number of leading entries whose key is below `k`: where `k` belongs.
pub open spec fn lower_bound<V>(es: Seq<(Seq<char>, V)>, k: Seq<char>) -> int
    decreases es.len(),
{
    if es.len() == 0 {
        0
    } else if key_lt(es[0].0, k) {
        1 + lower_bound(es.drop_first(), k)
    } else {
        0
    }
}

/// `BTreeMap::insert` on the sorted entries: the value of an existing key is
/// replaced; a new key is placed in order.
pub open spec fn entries_insert<V>(es: Seq<(Seq<char>, V)>, k: Seq<char>, v: V) -> Seq<
    (Seq<char>, V),
> {
    let p = lower_bound(es, k);
    if p < es.len() && es[p].0 == k {
        es.update(p, (k, v))
    } else {
        es.insert(p, (k, v))
    }
}

/// The key set of the entries.
pub open spec fn entries_keys<V>(es: Seq<(Seq<char>, V)>) -> Set<Seq<char>> {
    Set::new(|k: Seq<char>| exists|i: int| 0 <= i < es.len() && #[trigger] es[i].0 == k)
}

pub proof fn lemma_lower_bound<V>(es: Seq<(Seq<char>, V)>, k: Seq<char>)
    requires
        sorted_keys(es),
    ensures
        0 <= lower_bound(es, k) <= es.len(),
        forall|i: int| 0 <= i < lower_bound(es, k) ==> key_lt(#[trigger] es[i].0, k),
        forall|i: int| lower_bound(es, k) <= i < es.len() ==> !key_lt(#[trigger] es[i].0, k),
    decreases es.len(),
{
    if es.len() > 0 {
        let t = es.drop_first();
        assert(sorted_keys(t)) by {
            assert forall|i: int, j: int| 0 <= i < j < t.len() implies key_lt(
                #[trigger] t[i].0,
                #[trigger] t[j].0,
            ) by {
                assert(t[i] == es[i + 1] && t[j] == es[j + 1]);
            }
        }
        lemma_lower_bound(t, k);
        if key_lt(es[0].0, k) {
            assert forall|i: int| 0 <= i < lower_bound(es, k) implies key_lt(
                #[trigger] es[i].0,
                k,
            ) by {
                if i > 0 {
                    assert(es[i] == t[i - 1]);
                }
            }
            assert forall|i: int| lower_bound(es, k) <= i < es.len() implies !key_lt(
                #[trigger] es[i].0,
                k,
            ) by {
                assert(es[i] == t[i - 1]);
            }
        } else {
            assert forall|i: int| 0 <= i < es.len() implies !key_lt(#[trigger] es[i].0, k) by {
                if i > 0 && key_lt(es[i].0, k) {
                    assert(key_lt(es[0].0, es[i].0));
                    lemma_key_lt_transitive(es[0].0, es[i].0, k);
                }
            }
        }
    }
}

/// Inserting keeps the keys sorted, and adds exactly `k` to the key set.
pub proof fn lemma_entries_insert<V>(es: Seq<(Seq<char>, V)>, k: Seq<char>, v: V)
    requires
        sorted_keys(es),
    ensures
        sorted_keys(entries_insert(es, k, v)),
        entries_keys(entries_insert(es, k, v)) == entries_keys(es).insert(k),
{
    lemma_lower_bound(es, k);
    let p = lower_bound(es, k);
    let r = entries_insert(es, k, v);
    if p < es.len() && es[p].0 == k {
        assert forall|i: int, j: int| 0 <= i < j < r.len() implies key_lt(
            #[trigger] r[i].0,
            #[trigger] r[j].0,
        ) by {
            assert(r[i].0 == es[i].0 && r[j].0 == es[j].0);
        }
        assert forall|x: Seq<char>| entries_keys(r).contains(x) <==> entries_keys(es).insert(
            k,
        ).contains(x) by {
            if entries_keys(es).contains(x) {
                let i = choose|i: int| 0 <= i < es.len() && #[trigger] es[i].0 == x;
                assert(r[i].0 == x);
            }
            if entries_keys(r).contains(x) {
                let i = choose|i: int| 0 <= i < r.len() && #[trigger] r[i].0 == x;
                assert(es[i].0 == x);
            }
        }
        assert(entries_keys(r) =~= entries_keys(es).insert(k));
    } else {
        if p < es.len() {
            lemma_key_lt_total(es[p].0, k);
        }
        assert forall|i: int, j: int| 0 <= i < j < r.len() implies key_lt(
            #[trigger] r[i].0,
            #[trigger] r[j].0,
        ) by {
            if j < p {
                assert(r[i] == es[i] && r[j] == es[j]);
            } else if j == p {
                assert(r[i] == es[i]);
            } else if i < p {
                assert(r[i] == es[i] && r[j] == es[j - 1]);
                assert(key_lt(es[i].0, k));
                assert(key_lt(k, es[p].0));
                if j - 1 > p {
                    assert(key_lt(es[p].0, es[j - 1].0));
                    lemma_key_lt_transitive(k, es[p].0, es[j - 1].0);
                }
                lemma_key_lt_transitive(es[i].0, k, es[j - 1].0);
            } else if i == p {
                assert(r[j] == es[j - 1]);
                if j - 1 > p {
                    assert(key_lt(es[p].0, es[j - 1].0));
                    lemma_key_lt_transitive(k, es[p].0, es[j - 1].0);
                }
            } else {
                assert(r[i] == es[i - 1] && r[j] == es[j - 1]);
            }
        }
        assert forall|x: Seq<char>| entries_keys(r).contains(x) <==> entries_keys(es).insert(
            k,
        ).contains(x) by {
            if entries_keys(es).contains(x) {
                let i = choose|i: int| 0 <= i < es.len() && #[trigger] es[i].0 == x;
                if i < p {
                    assert(r[i].0 == x);
                } else {
                    assert(r[i + 1].0 == x);
                }
            }
            if x == k {
                assert(r[p].0 == k);
            }
            if entries_keys(r).contains(x) {
                let i = choose|i: int| 0 <= i < r.len() && #[trigger] r[i].0 == x;
                if i < p {
                    assert(es[i].0 == x);
                } else if i > p {
                    assert(es[i - 1].0 == x);
                }
            }
        }
        assert(entries_keys(r) =~= entries_keys(es).insert(k));
    }
}

/// The value stored under `k`, if any.
pub open spec fn entries_get<V>(es: Seq<(Seq<char>, V)>, k: Seq<char>) -> Option<V> {
    if has_key(es, k) {
        Some(es[key_index(es, k)].1)
    } else {
        None
    }
}

/// Some entry has key `k`.
pub open spec fn has_key<V>(es: Seq<(Seq<char>, V)>, k: Seq<char>) -> bool {
    exists|i: int| 0 <= i < es.len() && #[trigger] es[i].0 == k
}

/// An index whose entry has key `k`, where there is one.
pub open spec fn key_index<V>(es: Seq<(Seq<char>, V)>, k: Seq<char>) -> int {
    choose|i: int| 0 <= i < es.len() && #[trigger] es[i].0 == k
}

/// In sorted entries each key stands at one index at most.
pub proof fn lemma_sorted_unique<V>(es: Seq<(Seq<char>, V)>, i: int, j: int)
    requires
        sorted_keys(es),
        0 <= i < es.len(),
        0 <= j < es.len(),
        es[i].0 == es[j].0,
    ensures
        i == j,
{
    if i < j {
        lemma_key_lt_irreflexive(es[i].0);
    } else if j < i {
        lemma_key_lt_irreflexive(es[i].0);
    }
}

/// Reading after an insert gives back what was inserted under that key, and
/// what was there before under every other key.
pub proof fn lemma_entries_get_insert<V>(es: Seq<(Seq<char>, V)>, k: Seq<char>, v: V, q: Seq<char>)
    requires
        sorted_keys(es),
    ensures
        entries_get(entries_insert(es, k, v), q) == (if q == k {
            Some(v)
        } else {
            entries_get(es, q)
        }),
{
    lemma_lower_bound(es, k);
    lemma_entries_insert(es, k, v);
    let p = lower_bound(es, k);
    let r = entries_insert(es, k, v);
    if q == k {
        assert(r[p] == (k, v));
        assert(r[p].0 == q);
        let c = key_index(r, q);
        lemma_sorted_unique(r, c, p);
        assert(entries_get(r, q) == Some(v));
    } else {
        if has_key(es, q) {
            let c = key_index(es, q);
            let d = if p < es.len() && es[p].0 == k {
                c
            } else if c < p {
                c
            } else {
                c + 1
            };
            assert(r[d] == es[c]);
            assert(r[d].0 == q);
            let c2 = key_index(r, q);
            lemma_sorted_unique(r, c2, d);
            assert(entries_get(r, q) == Some(es[c].1));
        } else {
            if has_key(r, q) {
                let c2 = key_index(r, q);
                if p < es.len() && es[p].0 == k {
                    assert(es[c2].0 == q);
                } else if c2 < p {
                    assert(es[c2].0 == q);
                } else {
                    assert(es[c2 - 1].0 == q);
                }
            }
        }
    }
}

/// Compares two keys: negative, zero or positive as `a` is below, equal to
/// or above `b`.
pub fn key_order(a: &[char], b: &[char]) -> (r: i8)
    ensures
        r < 0 <==> key_lt(a@, b@),
        r == 0 <==> a@ == b@,
        r > 0 <==> key_lt(b@, a@),
{
    let mut i: usize = 0;
    proof {
        assert(a@.skip(0) =~= a@);
        assert(b@.skip(0) =~= b@);
    }
    while i < a.len() && i < b.len() && a[i] == b[i]
        invariant
            i <= a@.len(),
            i <= b@.len(),
            a@.take(i as int) == b@.take(i as int),
            key_lt(a@, b@) == key_lt(a@.skip(i as int), b@.skip(i as int)),
            key_lt(b@, a@) == key_lt(b@.skip(i as int), a@.skip(i as int)),
        decreases a@.len() - i,
    {
        proof {
            assert(a@.skip(i as int).drop_first() =~= a@.skip(i + 1));
            assert(b@.skip(i as int).drop_first() =~= b@.skip(i + 1));
            assert(a@.take(i + 1) =~= a@.take(i as int).push(a@[i as int]));
            assert(b@.take(i + 1) =~= b@.take(i as int).push(b@[i as int]));
        }
        i = i + 1;
    }
    proof {
        lemma_key_lt_irreflexive(a@);
        lemma_key_lt_total(a@, b@);
        if key_lt(a@, b@) {
            lemma_key_lt_asymmetric(a@, b@);
        }
    }
    if i < a.len() && i < b.len() {
        proof {
            assert(a@.skip(i as int)[0] == a@[i as int]);
            assert(b@.skip(i as int)[0] == b@[i as int]);
            assert(a@[i as int] != b@[i as int]);
            assert(a@ != b@);
        }
        if a[i] < b[i] {
            -1
        } else {
            1
        }
    } else if i < a.len() {
        proof {
            assert(b@.take(i as int) =~= b@);
            assert(a@ != b@);
        }
        1
    } else if i < b.len() {
        proof {
            assert(a@.take(i as int) =~= a@);
            assert(a@ != b@);
        }
        -1
    } else {
        proof {
            assert(a@.take(i as int) =~= a@);
            assert(b@.take(i as int) =~= b@);
        }
        0
    }
}

} // verus!
