//! A map from strings to values that keeps its keys in string order.
use vstd::prelude::*;
use crate::text::{compare_str, str_lt, StrOrder, lemma_str_lt_irreflexive, lemma_str_lt_transitive};

verus! {

/// Every key is below every key after it.
pub open spec fn sorted_strictly(ks: Seq<Seq<char>>) -> bool {
    forall|i: int, j: int| 0 <= i < j < ks.len() ==> str_lt(#[trigger] ks[i], #[trigger] ks[j])
}

/// The map whose keys are `ks` and whose value at `ks[i]` is `vs[i]`.
pub open spec fn map_of<V>(ks: Seq<Seq<char>>, vs: Seq<V>) -> Map<Seq<char>, V> {
    Map::new(|k: Seq<char>| ks.contains(k), |k: Seq<char>| vs[ks.index_of(k)])
}

/// In keys that stand in order, each key is found where it stands.
pub proof fn lemma_index_of_sorted(ks: Seq<Seq<char>>, i: int)
    requires
        sorted_strictly(ks),
        0 <= i < ks.len(),
    ensures
        ks.contains(ks[i]),
        ks.index_of(ks[i]) == i,
{
    assert(ks.contains(ks[i]));
    let j = ks.index_of(ks[i]);
    assert(0 <= j < ks.len() && ks[j] == ks[i]);
    if j != i {
        lemma_str_lt_irreflexive(ks[i]);
        if j < i {
            assert(str_lt(ks[j], ks[i]));
        } else {
            assert(str_lt(ks[i], ks[j]));
        }
    }
}

proof fn lemma_map_of_insert<V>(ks: Seq<Seq<char>>, vs: Seq<V>, p: int, k: Seq<char>, v: V)
    requires
        sorted_strictly(ks),
        sorted_strictly(ks.insert(p, k)),
        ks.len() == vs.len(),
        0 <= p <= ks.len(),
        !ks.contains(k),
    ensures
        map_of(ks.insert(p, k), vs.insert(p, v)) =~= map_of(ks, vs).insert(k, v),
{
    let nks = ks.insert(p, k);
    let nvs = vs.insert(p, v);
    ks.insert_ensures(p, k);
    vs.insert_ensures(p, v);
    assert forall|q: Seq<char>| nks.contains(q) <==> (ks.contains(q) || q == k) by {
        if nks.contains(q) {
            let j = choose|j: int| 0 <= j < nks.len() && nks[j] == q;
            if j < p {
                assert(ks[j] == q);
            } else if j > p {
                assert(ks[j - 1] == q);
            }
        }
        if ks.contains(q) {
            let j = choose|j: int| 0 <= j < ks.len() && ks[j] == q;
            if j < p {
                assert(nks[j] == q);
            } else {
                assert(nks[j + 1] == q);
            }
        }
        if q == k {
            assert(nks[p] == q);
        }
    }
    assert forall|q: Seq<char>| #[trigger] nks.contains(q) implies map_of(nks, nvs)[q] == map_of(ks, vs).insert(k, v)[q] by {
        if q == k {
            lemma_index_of_sorted(nks, p);
        } else {
            let j = choose|j: int| 0 <= j < ks.len() && ks[j] == q;
            lemma_index_of_sorted(ks, j);
            if j < p {
                assert(nks[j] == q);
                lemma_index_of_sorted(nks, j);
            } else {
                assert(nks[j + 1] == q);
                lemma_index_of_sorted(nks, j + 1);
            }
        }
    }
}

proof fn lemma_map_of_update<V>(ks: Seq<Seq<char>>, vs: Seq<V>, p: int, v: V)
    requires
        sorted_strictly(ks),
        ks.len() == vs.len(),
        0 <= p < ks.len(),
    ensures
        map_of(ks, vs.update(p, v)) =~= map_of(ks, vs).insert(ks[p], v),
{
    lemma_index_of_sorted(ks, p);
    assert forall|q: Seq<char>| #[trigger] ks.contains(q) implies map_of(ks, vs.update(p, v))[q]
        == map_of(ks, vs).insert(ks[p], v)[q] by {
        let j = choose|j: int| 0 <= j < ks.len() && ks[j] == q;
        lemma_index_of_sorted(ks, j);
    }
}

proof fn lemma_map_of_remove<V>(ks: Seq<Seq<char>>, vs: Seq<V>, p: int)
    requires
        sorted_strictly(ks),
        ks.len() == vs.len(),
        0 <= p < ks.len(),
    ensures
        sorted_strictly(ks.remove(p)),
        map_of(ks.remove(p), vs.remove(p)) =~= map_of(ks, vs).remove(ks[p]),
{
    let nks = ks.remove(p);
    let nvs = vs.remove(p);
    ks.remove_ensures(p);
    vs.remove_ensures(p);
    assert forall|i: int, j: int| 0 <= i < j < nks.len() implies str_lt(#[trigger] nks[i], #[trigger] nks[j]) by {
        let oi = if i < p { i } else { i + 1 };
        let oj = if j < p { j } else { j + 1 };
        assert(nks[i] == ks[oi] && nks[j] == ks[oj]);
    }
    assert forall|q: Seq<char>| nks.contains(q) <==> (ks.contains(q) && q != ks[p]) by {
        if nks.contains(q) {
            let j = choose|j: int| 0 <= j < nks.len() && nks[j] == q;
            let oj = if j < p { j } else { j + 1 };
            assert(ks[oj] == q);
            lemma_str_lt_irreflexive(q);
        }
        if ks.contains(q) && q != ks[p] {
            let j = choose|j: int| 0 <= j < ks.len() && ks[j] == q;
            if j < p {
                assert(nks[j] == q);
            } else {
                assert(nks[j - 1] == q);
            }
        }
    }
    assert forall|q: Seq<char>| #[trigger] nks.contains(q) implies map_of(nks, nvs)[q] == map_of(ks, vs)[q] by {
        let j = choose|j: int| 0 <= j < nks.len() && nks[j] == q;
        lemma_index_of_sorted(nks, j);
        let oj = if j < p { j } else { j + 1 };
        assert(ks[oj] == q);
        lemma_index_of_sorted(ks, oj);
    }
}

/// Putting a new key in and taking it out again leaves the map as it was.
pub proof fn lemma_insert_then_remove<V>(m: Map<Seq<char>, V>, key: Seq<char>, value: V)
    requires
        !m.contains_key(key),
    ensures
        m.insert(key, value).remove(key) == m,
{
    assert(m.insert(key, value).remove(key) =~= m);
}

/// A map from strings to values. Its entries stand in string order, each key once:
/// in place of a `BTreeMap<String, V>`.
#[derive(Debug)]
pub struct StrMap<V> {
    entries: Vec<(String, V)>,
}

impl<V> StrMap<V> {
    /// The keys, in the order in which the map holds them.
    pub closed spec fn key_seq(&self) -> Seq<Seq<char>> {
        self.entries@.map_values(|e: (String, V)| e.0@)
    }

    /// The values, in the order of `key_seq`.
    pub closed spec fn value_seq(&self) -> Seq<V> {
        self.entries@.map_values(|e: (String, V)| e.1)
    }

    #[verifier::type_invariant]
    closed spec fn keys_in_order(&self) -> bool {
        sorted_strictly(self.key_seq())
    }
}

impl<V> View for StrMap<V> {
    type V = Map<Seq<char>, V>;

    closed spec fn view(&self) -> Map<Seq<char>, V> {
        map_of(self.key_seq(), self.value_seq())
    }
}

impl<V> StrMap<V> {
    /// An empty map.
    pub fn new() -> (m: Self)
        ensures
            m@ == Map::<Seq<char>, V>::empty(),
            m.key_seq() == Seq::<Seq<char>>::empty(),
    {
        let m = StrMap { entries: Vec::new() };
        assert(m.key_seq() =~= Seq::<Seq<char>>::empty());
        assert(m@ =~= Map::<Seq<char>, V>::empty());
        m
    }

    /// Where `key` stands or would stand: every key before the result is below
    /// `key`; the boolean tells whether the key at the result is `key` itself.
    fn position(&self, key: &str) -> (r: (usize, bool))
        ensures
            r.0 <= self.key_seq().len(),
            forall|i: int| 0 <= i < r.0 ==> str_lt(#[trigger] self.key_seq()[i], key@),
            r.1 ==> r.0 < self.key_seq().len() && self.key_seq()[r.0 as int] == key@,
            !r.1 ==> r.0 < self.key_seq().len() ==> str_lt(key@, self.key_seq()[r.0 as int]),
    {
        let n = self.entries.len();
        let mut i: usize = 0;
        while i < n
            invariant
                n == self.entries@.len(),
                i <= n,
                forall|j: int| 0 <= j < i ==> str_lt(#[trigger] self.key_seq()[j], key@),
            decreases n - i,
        {
            match compare_str(self.entries[i].0.as_str(), key) {
                StrOrder::Less => {},
                StrOrder::Equal => {
                    return (i, true);
                },
                StrOrder::Greater => {
                    return (i, false);
                },
            }
            i = i + 1;
        }
        (i, false)
    }

    proof fn lemma_absent(&self, key: Seq<char>, p: int)
        requires
            sorted_strictly(self.key_seq()),
            0 <= p <= self.key_seq().len(),
            forall|i: int| 0 <= i < p ==> str_lt(#[trigger] self.key_seq()[i], key),
            p < self.key_seq().len() ==> str_lt(key, self.key_seq()[p]),
        ensures
            !self.key_seq().contains(key),
            !self@.contains_key(key),
    {
        let ks = self.key_seq();
        if ks.contains(key) {
            let j = choose|j: int| 0 <= j < ks.len() && ks[j] == key;
            lemma_str_lt_irreflexive(key);
            if j > p {
                lemma_str_lt_transitive(key, ks[p], ks[j]);
            }
        }
    }

    /// The value at `key`, if there is one.
    pub fn get(&self, key: &str) -> (r: Option<&V>)
        ensures
            match r {
                Some(v) => self@.contains_key(key@) && *v == self@[key@],
                None => !self@.contains_key(key@),
            },
    {
        proof {
            use_type_invariant(self);
        }
        let (p, found) = self.position(key);
        if found {
            proof {
                lemma_index_of_sorted(self.key_seq(), p as int);
            }
            Some(&self.entries[p].1)
        } else {
            proof {
                self.lemma_absent(key@, p as int);
            }
            None
        }
    }

    /// Whether the map holds `key`.
    pub fn contains_key(&self, key: &str) -> (r: bool)
        ensures
            r == self@.contains_key(key@),
    {
        self.get(key).is_some()
    }

    /// Puts `value` at `key`. Where the key was there, its value is replaced and the
    /// old value comes back; otherwise the key is added and `None` comes back.
    pub fn insert(&mut self, key: String, value: V) -> (r: Option<V>)
        ensures
            final(self)@ == old(self)@.insert(key@, value),
            sorted_strictly(final(self).key_seq()),
            forall|k: Seq<char>| final(self)@.contains_key(k) <==> final(self).key_seq().contains(k),
            r == (if old(self)@.contains_key(key@) { Some(old(self)@[key@]) } else { None::<V> }),
    {
        proof {
            use_type_invariant(&*self);
        }
        let (p, found) = self.position(key.as_str());
        let ghost ks = self.key_seq();
        let ghost vs = self.value_seq();
        proof {
            if !found {
                self.lemma_absent(key@, p as int);
                assert forall|j: int| p <= j < ks.len() implies str_lt(key@, #[trigger] ks[j]) by {
                    if j > p {
                        lemma_str_lt_transitive(key@, ks[p as int], ks[j]);
                    }
                }
            }
        }
        let mut entries: Vec<(String, V)> = Vec::new();
        std::mem::swap(&mut entries, &mut self.entries);
        assert(entries@.map_values(|e: (String, V)| e.0@) == ks);
        assert(entries@.map_values(|e: (String, V)| e.1) == vs);
        if found {
            let (old_key, old_value) = entries.remove(p);
            entries.insert(p, (old_key, value));
            proof {
                assert(entries@.map_values(|e: (String, V)| e.0@) =~= ks);
                assert(entries@.map_values(|e: (String, V)| e.1) =~= vs.update(p as int, value));
                lemma_map_of_update(ks, vs, p as int, value);
                lemma_index_of_sorted(ks, p as int);
            }
            self.entries = entries;
            Some(old_value)
        } else {
            let ghost kv = key@;
            entries.insert(p, (key, value));
            proof {
                let nks = ks.insert(p as int, kv);
                assert(entries@.map_values(|e: (String, V)| e.0@) =~= nks);
                assert(entries@.map_values(|e: (String, V)| e.1) =~= vs.insert(p as int, value));
                ks.insert_ensures(p as int, kv);
                assert forall|i: int, j: int| 0 <= i < j < nks.len() implies str_lt(#[trigger] nks[i], #[trigger] nks[j]) by {
                    if j < p {
                    } else if j == p {
                    } else if i < p {
                        assert(nks[j] == ks[j - 1]);
                        lemma_str_lt_transitive(nks[i], kv, nks[j]);
                    } else if i == p {
                        assert(nks[j] == ks[j - 1]);
                    } else {
                        assert(nks[i] == ks[i - 1] && nks[j] == ks[j - 1]);
                    }
                }
                lemma_map_of_insert(ks, vs, p as int, kv, value);
            }
            self.entries = entries;
            None
        }
    }

    /// Takes `key` out of the map, and gives back the value it had, if it was there.
    pub fn remove(&mut self, key: &str) -> (r: Option<V>)
        ensures
            final(self)@ == old(self)@.remove(key@),
            sorted_strictly(final(self).key_seq()),
            forall|k: Seq<char>| final(self)@.contains_key(k) <==> final(self).key_seq().contains(k),
            r == (if old(self)@.contains_key(key@) { Some(old(self)@[key@]) } else { None::<V> }),
    {
        proof {
            use_type_invariant(&*self);
        }
        let (p, found) = self.position(key);
        if found {
            let ghost ks = self.key_seq();
            let ghost vs = self.value_seq();
            let mut entries: Vec<(String, V)> = Vec::new();
            std::mem::swap(&mut entries, &mut self.entries);
            let (_old_key, old_value) = entries.remove(p);
            proof {
                assert(entries@.map_values(|e: (String, V)| e.0@) =~= ks.remove(p as int));
                assert(entries@.map_values(|e: (String, V)| e.1) =~= vs.remove(p as int));
                lemma_map_of_remove(ks, vs, p as int);
                lemma_index_of_sorted(ks, p as int);
            }
            self.entries = entries;
            Some(old_value)
        } else {
            proof {
                self.lemma_absent(key@, p as int);
                assert(self@.remove(key@) =~= self@);
            }
            None
        }
    }

    /// The keys, in string order.
    pub fn keys(&self) -> (r: Vec<String>)
        ensures
            r@.map_values(|s: String| s@) == self.key_seq(),
            sorted_strictly(self.key_seq()),
            forall|k: Seq<char>| self@.contains_key(k) <==> self.key_seq().contains(k),
    {
        proof {
            use_type_invariant(self);
        }
        let mut out: Vec<String> = Vec::new();
        let n = self.entries.len();
        let mut i: usize = 0;
        while i < n
            invariant
                n == self.entries@.len(),
                i <= n,
                out@.len() == i,
                forall|j: int| 0 <= j < i ==> #[trigger] out@[j]@ == self.key_seq()[j],
            decreases n - i,
        {
            out.push(self.entries[i].0.clone());
            i = i + 1;
        }
        assert(out@.map_values(|s: String| s@) =~= self.key_seq());
        out
    }

    /// The values, in the order of the keys.
    pub fn values(&self) -> (r: Vec<&V>)
        ensures
            r@.len() == self.key_seq().len(),
            forall|i: int| 0 <= i < r@.len() ==> *#[trigger] r@[i] == self@[self.key_seq()[i]],
            sorted_strictly(self.key_seq()),
            forall|k: Seq<char>| self@.contains_key(k) <==> self.key_seq().contains(k),
    {
        proof {
            use_type_invariant(self);
        }
        let mut out: Vec<&V> = Vec::new();
        let n = self.entries.len();
        let mut i: usize = 0;
        while i < n
            invariant
                n == self.entries@.len(),
                i <= n,
                out@.len() == i,
                sorted_strictly(self.key_seq()),
                forall|j: int| 0 <= j < i ==> *#[trigger] out@[j] == self@[self.key_seq()[j]],
            decreases n - i,
        {
            proof {
                lemma_index_of_sorted(self.key_seq(), i as int);
            }
            out.push(&self.entries[i].1);
            i = i + 1;
        }
        out
    }
}

} // verus!
