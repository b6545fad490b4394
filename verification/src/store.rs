//! The value store of a parsed Pkl document: values by property name, kept
//! in name order, one entry per name.
use vstd::prelude::*;
use crate::ordered::{
    entries_get, entries_insert, has_key, key_index, key_lt, key_order, lemma_entries_get_insert,
    lemma_entries_insert, lemma_key_lt_irreflexive, lemma_key_lt_total, lemma_lower_bound,
    lemma_sorted_unique, lower_bound, sorted_keys,
};
use crate::text::str_to_chars;

verus! {

/// The entries with their names as character sequences.
pub open spec fn named<V>(es: Seq<(String, V)>) -> Seq<(Seq<char>, V)> {
    Seq::new(es.len(), |i: int| (es[i].0@, es[i].1))
}

/// The map that sorted entries stand for.
pub open spec fn entries_map<V>(es: Seq<(Seq<char>, V)>) -> Map<Seq<char>, V> {
    Map::new(|k: Seq<char>| entries_get(es, k) is Some, |k: Seq<char>| entries_get(es, k).unwrap())
}

/// The entries without the one named `k`, if there is one.
pub open spec fn entries_remove<V>(es: Seq<(Seq<char>, V)>, k: Seq<char>) -> Seq<(Seq<char>, V)> {
    if has_key(es, k) {
        es.remove(key_index(es, k))
    } else {
        es
    }
}

/// Removing keeps the entries sorted; afterwards `k` has no value and every
/// other name keeps its value.
pub proof fn lemma_entries_remove<V>(es: Seq<(Seq<char>, V)>, k: Seq<char>, q: Seq<char>)
    requires
        sorted_keys(es),
    ensures
        sorted_keys(entries_remove(es, k)),
        entries_get(entries_remove(es, k), q) == (if q == k {
            None
        } else {
            entries_get(es, q)
        }),
{
    let r = entries_remove(es, k);
    if has_key(es, k) {
        let p = key_index(es, k);
        assert forall|i: int, j: int| 0 <= i < j < r.len() implies key_lt(
            #[trigger] r[i].0,
            #[trigger] r[j].0,
        ) by {
            let i2 = if i < p { i } else { i + 1 };
            let j2 = if j < p { j } else { j + 1 };
            assert(r[i] == es[i2] && r[j] == es[j2]);
        }
        if has_key(r, q) {
            let c = key_index(r, q);
            let c2 = if c < p { c } else { c + 1 };
            assert(r[c] == es[c2]);
            if q == k {
                lemma_sorted_unique(es, c2, p);
            } else {
                assert(es[c2].0 == q);
                let d = key_index(es, q);
                lemma_sorted_unique(es, c2, d);
            }
        } else if q != k && has_key(es, q) {
            let d = key_index(es, q);
            if d != p {
                let d2 = if d < p { d } else { d - 1 };
                assert(r[d2] == es[d]);
                assert(r[d2].0 == q);
            }
        }
    }
}

proof fn lemma_map_insert<V>(es: Seq<(Seq<char>, V)>, k: Seq<char>, v: V)
    requires
        sorted_keys(es),
    ensures
        entries_map(entries_insert(es, k, v)) == entries_map(es).insert(k, v),
{
    assert forall|q: Seq<char>| #![auto] entries_get(entries_insert(es, k, v), q) == (if q == k {
        Some(v)
    } else {
        entries_get(es, q)
    }) by {
        lemma_entries_get_insert(es, k, v, q);
    }
    assert(entries_map(entries_insert(es, k, v)) =~= entries_map(es).insert(k, v));
}

proof fn lemma_map_remove<V>(es: Seq<(Seq<char>, V)>, k: Seq<char>)
    requires
        sorted_keys(es),
    ensures
        entries_map(entries_remove(es, k)) == entries_map(es).remove(k),
{
    assert forall|q: Seq<char>| #![auto] entries_get(entries_remove(es, k), q) == (if q == k {
        None
    } else {
        entries_get(es, q)
    }) by {
        lemma_entries_remove(es, k, q);
    }
    assert(entries_map(entries_remove(es, k)) =~= entries_map(es).remove(k));
}

/// The main interface for working with Pkl data: values by name.
pub struct Pkl<V> {
    entries: Vec<(String, V)>,
}

impl<V> View for Pkl<V> {
    type V = Map<Seq<char>, V>;

    closed spec fn view(&self) -> Map<Seq<char>, V> {
        entries_map(named(self.entries@))
    }
}

impl<V> Pkl<V> {
    #[verifier::type_invariant]
    closed spec fn sorted(&self) -> bool {
        sorted_keys(named(self.entries@))
    }

    /// Creates a new, empty store.
    pub fn new() -> (r: Pkl<V>)
        ensures
            r@ == Map::<Seq<char>, V>::empty(),
    {
        let r = Pkl { entries: Vec::new() };
        assert(named(r.entries@) =~= Seq::<(Seq<char>, V)>::empty());
        assert(r@ =~= Map::<Seq<char>, V>::empty());
        r
    }

    /// The index of the entry named `name`, if any.
    fn position(&self, name: &[char]) -> (r: Option<usize>)
        ensures
            match r {
                Some(i) => i < self.entries@.len() && has_key(named(self.entries@), name@)
                    && key_index(named(self.entries@), name@) == i,
                None => !has_key(named(self.entries@), name@),
            },
    {
        proof {
            use_type_invariant(self);
        }
        let ghost m = named(self.entries@);
        let mut i: usize = 0;
        while i < self.entries.len()
            invariant
                i <= self.entries@.len(),
                m == named(self.entries@),
                sorted_keys(m),
                forall|j: int| 0 <= j < i ==> m[j].0 != name@,
            decreases self.entries@.len() - i,
        {
            let k = str_to_chars(self.entries[i].0.as_str());
            assert(m[i as int].0 == k@);
            if key_order(&k, name) == 0 {
                proof {
                    let c = key_index(m, name@);
                    lemma_sorted_unique(m, c, i as int);
                }
                return Some(i);
            }
            i = i + 1;
        }
        None
    }

    /// Retrieves the value stored under `name`, if any.
    pub fn get(&self, name: &str) -> (r: Option<&V>)
        ensures
            match r {
                Some(v) => self@.contains_key(name@) && *v == self@[name@],
                None => !self@.contains_key(name@),
            },
    {
        let n = str_to_chars(name);
        match self.position(&n) {
            Some(i) => Some(&self.entries[i].1),
            None => None,
        }
    }

    /// Sets the value under `name`; gives back the value it replaces, if any.
    pub fn set(&mut self, name: &str, value: V) -> (r: Option<V>)
        ensures
            final(self)@ == old(self)@.insert(name@, value),
            r == (if old(self)@.contains_key(name@) {
                Some(old(self)@[name@])
            } else {
                None::<V>
            }),
    {
        proof {
            use_type_invariant(&*self);
        }
        let mut es: Vec<(String, V)> = Vec::new();
        std::mem::swap(&mut es, &mut self.entries);
        let ghost old_model = named(es@);
        let kc = str_to_chars(name);
        proof {
            lemma_lower_bound(old_model, name@);
            lemma_entries_insert(old_model, name@, value);
            lemma_map_insert(old_model, name@, value);
        }
        let mut j: usize = 0;
        while j < es.len() && key_order(&str_to_chars(es[j].0.as_str()), &kc) < 0
            invariant
                j <= es@.len(),
                old_model == named(es@),
                kc@ == name@,
                sorted_keys(old_model),
                0 <= lower_bound(old_model, name@) <= old_model.len(),
                forall|i: int| 0 <= i < lower_bound(old_model, name@) ==> key_lt(#[trigger] old_model[i].0, name@),
                forall|i: int| lower_bound(old_model, name@) <= i < old_model.len() ==> !key_lt(#[trigger] old_model[i].0, name@),
                forall|i: int| 0 <= i < j ==> key_lt(#[trigger] old_model[i].0, name@),
            decreases es@.len() - j,
        {
            assert(old_model[j as int].0 == es@[j as int].0@);
            j = j + 1;
        }
        assert(j == lower_bound(old_model, name@)) by {
            if j < lower_bound(old_model, name@) {
                assert(key_lt(old_model[j as int].0, name@));
            }
            if j > lower_bound(old_model, name@) {
                let p = lower_bound(old_model, name@);
                assert(key_lt(old_model[p].0, name@));
            }
        }
        let same = j < es.len() && key_order(&str_to_chars(es[j].0.as_str()), &kc) == 0;
        let ghost item = (name@, value);
        let r = if same {
            let (_, old_value) = es.remove(j);
            proof {
                assert(old_model[j as int].0 == name@);
                let c = key_index(old_model, name@);
                lemma_sorted_unique(old_model, c, j as int);
                assert(entries_get(old_model, name@) == Some(old_model[j as int].1));
            }
            es.insert(j, (name.to_string(), value));
            assert(named(es@) =~= old_model.update(j as int, item));
            Some(old_value)
        } else {
            proof {
                if has_key(old_model, name@) {
                    let c = key_index(old_model, name@);
                    if c < j {
                        lemma_key_lt_irreflexive(name@);
                    } else if c > j {
                        assert(!key_lt(old_model[j as int].0, name@));
                        lemma_key_lt_total(old_model[j as int].0, name@);
                        assert(key_lt(old_model[j as int].0, old_model[c].0));
                        lemma_key_lt_irreflexive(name@);
                    }
                }
            }
            es.insert(j, (name.to_string(), value));
            assert(named(es@) =~= old_model.insert(j as int, item));
            None
        };
        assert(named(es@) == entries_insert(old_model, name@, value));
        self.entries = es;
        r
    }

    /// Removes the value under `name`; gives it back, if there was one.
    pub fn remove(&mut self, name: &str) -> (r: Option<V>)
        ensures
            final(self)@ == old(self)@.remove(name@),
            r == (if old(self)@.contains_key(name@) {
                Some(old(self)@[name@])
            } else {
                None::<V>
            }),
    {
        proof {
            use_type_invariant(&*self);
        }
        let n = str_to_chars(name);
        let pos = self.position(&n);
        let mut es: Vec<(String, V)> = Vec::new();
        std::mem::swap(&mut es, &mut self.entries);
        let ghost old_model = named(es@);
        proof {
            lemma_entries_remove(old_model, name@, name@);
            lemma_map_remove(old_model, name@);
        }
        let r = match pos {
            Some(i) => {
                let (_, v) = es.remove(i);
                assert(named(es@) =~= old_model.remove(i as int));
                Some(v)
            },
            None => None,
        };
        assert(named(es@) == entries_remove(old_model, name@));
        proof {
            lemma_entries_remove(old_model, name@, name@);
        }
        self.entries = es;
        r
    }
}

/// A read after a write gives back what was written, and a write leaves
/// every other name as it was.
pub proof fn lemma_set_then_get<V>(m: Map<Seq<char>, V>, k: Seq<char>, v: V, q: Seq<char>)
    ensures
        m.insert(k, v).contains_key(q) == (q == k || m.contains_key(q)),
        m.insert(k, v).contains_key(q) ==> m.insert(k, v)[q] == (if q == k {
            v
        } else {
            m[q]
        }),
        !m.remove(k).contains_key(k),
        q != k ==> m.remove(k).contains_key(q) == m.contains_key(q),
{
}


/// A write to the store: `set` of a value under a name, or `remove` of a name.
pub enum StoreWrite<V> {
    Put(Seq<char>, V),
    Delete(Seq<char>),
}

/// The name a write touches.
pub open spec fn write_name<V>(w: StoreWrite<V>) -> Seq<char> {
    match w {
        StoreWrite::Put(k, _) => k,
        StoreWrite::Delete(k) => k,
    }
}

/// The store's map after the writes, in order, as `set` and `remove` change
/// it by their contracts.
pub open spec fn after_writes<V>(m: Map<Seq<char>, V>, ws: Seq<StoreWrite<V>>) -> Map<Seq<char>, V>
    decreases ws.len(),
{
    if ws.len() == 0 {
        m
    } else {
        let before = after_writes(m, ws.drop_last());
        match ws.last() {
            StoreWrite::Put(k, v) => before.insert(k, v),
            StoreWrite::Delete(k) => before.remove(k),
        }
    }
}

/// After any history of writes, a read of a name gives what the last write
/// to that name set: the value where it was a `set`.
pub proof fn lemma_read_after_last_set<V>(m: Map<Seq<char>, V>, ws: Seq<StoreWrite<V>>, i: int, n: Seq<char>, v: V)
    requires
        0 <= i < ws.len(),
        ws[i] == StoreWrite::Put(n, v),
        forall|j: int| i < j < ws.len() ==> write_name(#[trigger] ws[j]) != n,
    ensures
        after_writes(m, ws).contains_key(n),
        after_writes(m, ws)[n] == v,
    decreases ws.len(),
{
    if i < ws.len() - 1 {
        assert(write_name(ws[ws.len() - 1]) != n);
        assert forall|j: int| i < j < ws.drop_last().len() implies write_name(#[trigger] ws.drop_last()[j]) != n by {
            assert(ws.drop_last()[j] == ws[j]);
        }
        lemma_read_after_last_set(m, ws.drop_last(), i, n, v);
    }
}

/// After any history of writes, a name whose last write was a `remove` has
/// no value.
pub proof fn lemma_read_after_last_remove<V>(m: Map<Seq<char>, V>, ws: Seq<StoreWrite<V>>, i: int, n: Seq<char>)
    requires
        0 <= i < ws.len(),
        ws[i] == StoreWrite::<V>::Delete(n),
        forall|j: int| i < j < ws.len() ==> write_name(#[trigger] ws[j]) != n,
    ensures
        !after_writes(m, ws).contains_key(n),
    decreases ws.len(),
{
    if i < ws.len() - 1 {
        assert(write_name(ws[ws.len() - 1]) != n);
        assert forall|j: int| i < j < ws.drop_last().len() implies write_name(#[trigger] ws.drop_last()[j]) != n by {
            assert(ws.drop_last()[j] == ws[j]);
        }
        lemma_read_after_last_remove(m, ws.drop_last(), i, n);
    }
}

/// Writes that never touch a name leave it as it was; in particular, a
/// name never written in a new store has no value.
pub proof fn lemma_read_untouched<V>(m: Map<Seq<char>, V>, ws: Seq<StoreWrite<V>>, n: Seq<char>)
    requires
        forall|j: int| 0 <= j < ws.len() ==> write_name(#[trigger] ws[j]) != n,
    ensures
        after_writes(m, ws).contains_key(n) == m.contains_key(n),
        m.contains_key(n) ==> after_writes(m, ws)[n] == m[n],
        after_writes(Map::<Seq<char>, V>::empty(), ws).contains_key(n) == false,
    decreases ws.len(),
{
    if ws.len() > 0 {
        assert(write_name(ws[ws.len() - 1]) != n);
        assert forall|j: int| 0 <= j < ws.drop_last().len() implies write_name(#[trigger] ws.drop_last()[j]) != n by {
            assert(ws.drop_last()[j] == ws[j]);
        }
        lemma_read_untouched(m, ws.drop_last(), n);
        lemma_read_untouched(Map::<Seq<char>, V>::empty(), ws.drop_last(), n);
    }
}

} // verus!
