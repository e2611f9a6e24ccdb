//! A map from names to values that keeps the order in which names were first inserted.

use vstd::prelude::*;
use crate::text::str_eq;

verus! {

/// In a sequence without duplicates, `index_of` finds the one position of an element.
pub proof fn lemma_index_of_unique<A>(s: Seq<A>, i: int)
    requires
        s.no_duplicates(),
        0 <= i < s.len(),
    ensures
        s.index_of(s[i]) == i,
{
    let j = s.index_of(s[i]);
    assert(s.contains(s[i]));
}

/// Names mapped to values, in insertion order; a name occurs at most once.
#[derive(Debug)]
pub struct NameMap<V> {
    keys: Vec<String>,
    vals: Vec<V>,
}

impl<V> NameMap<V> {
    /// The names, in order.
    pub closed spec fn keys_view(&self) -> Seq<Seq<char>> {
        self.keys@.map_values(|k: String| k@)
    }

    /// The values, in the order of their names.
    pub closed spec fn vals_view(&self) -> Seq<V> {
        self.vals@
    }

    /// One value per name, and no name twice.
    pub open spec fn wf(&self) -> bool {
        &&& self.keys_view().len() == self.vals_view().len()
        &&& self.keys_view().no_duplicates()
    }

    /// The map from names to values.
    pub open spec fn as_map(&self) -> Map<Seq<char>, V> {
        Map::new(
            |k: Seq<char>| self.keys_view().contains(k),
            |k: Seq<char>| self.vals_view()[self.keys_view().index_of(k)],
        )
    }

    /// The value of the name at position `i` is the value stored at `i`.
    pub proof fn lemma_at(&self, i: int)
        requires
            self.wf(),
            0 <= i < self.keys_view().len(),
        ensures
            self.as_map().contains_key(self.keys_view()[i]),
            self.as_map()[self.keys_view()[i]] == self.vals_view()[i],
    {
        lemma_index_of_unique(self.keys_view(), i);
    }

    /// An empty map.
    pub fn new() -> (m: Self)
        ensures
            m.wf(),
            m.keys_view() == Seq::<Seq<char>>::empty(),
            m.as_map() == Map::<Seq<char>, V>::empty(),
    {
        let m = NameMap { keys: Vec::new(), vals: Vec::new() };
        assert(m.keys_view() =~= Seq::<Seq<char>>::empty());
        assert(m.as_map() =~= Map::<Seq<char>, V>::empty());
        m
    }

    /// Number of names.
    pub fn len(&self) -> (n: usize)
        requires self.wf(),
        ensures n == self.keys_view().len(),
    {
        self.keys.len()
    }

    /// No name is present.
    pub fn is_empty(&self) -> (r: bool)
        requires self.wf(),
        ensures r == (self.keys_view().len() == 0),
    {
        self.keys.len() == 0
    }

    /// Position of `key`, if present.
    pub fn position(&self, key: &str) -> (r: Option<usize>)
        requires self.wf(),
        ensures
            r is None <==> !self.keys_view().contains(key@),
            r matches Some(i) ==> i < self.keys_view().len() && self.keys_view()[i as int] == key@,
    {
        let mut i: usize = 0;
        while i < self.keys.len()
            invariant
                self.wf(),
                i <= self.keys.len(),
                forall|j: int| 0 <= j < i ==> self.keys_view()[j] != key@,
            decreases self.keys.len() - i,
        {
            if str_eq(self.keys[i].as_str(), key) {
                assert(self.keys_view()[i as int] == key@);
                assert(self.keys_view().contains(key@));
                return Some(i);
            }
            i += 1;
        }
        proof {
            if self.keys_view().contains(key@) {
                let j = choose|j: int| 0 <= j < self.keys_view().len() && self.keys_view()[j] == key@;
                assert(self.keys_view()[j] != key@);
            }
        }
        None
    }

    /// `key` is present.
    pub fn contains_key(&self, key: &str) -> (r: bool)
        requires self.wf(),
        ensures r == self.as_map().contains_key(key@),
    {
        self.position(key).is_some()
    }

    /// The value of `key`, if present.
    pub fn get(&self, key: &str) -> (r: Option<&V>)
        requires self.wf(),
        ensures
            r is Some <==> self.as_map().contains_key(key@),
            r matches Some(v) ==> *v == self.as_map()[key@],
    {
        match self.position(key) {
            Some(i) => {
                proof { self.lemma_at(i as int); }
                Some(&self.vals[i])
            }
            None => None,
        }
    }

    /// The name at position `i`.
    pub fn key_at(&self, i: usize) -> (k: &String)
        requires self.wf(), i < self.keys_view().len(),
        ensures k@ == self.keys_view()[i as int],
    {
        &self.keys[i]
    }

    /// The value at position `i`.
    pub fn val_at(&self, i: usize) -> (v: &V)
        requires self.wf(), i < self.keys_view().len(),
        ensures *v == self.vals_view()[i as int],
    {
        &self.vals[i]
    }

    /// Maps `key` to `val`; a present name keeps its position, a new one goes last.
    pub fn insert(&mut self, key: String, val: V)
        requires old(self).wf(),
        ensures
            final(self).wf(),
            final(self).as_map() == old(self).as_map().insert(key@, val),
            old(self).keys_view().contains(key@) ==> final(self).keys_view() == old(self).keys_view(),
            !old(self).keys_view().contains(key@) ==> final(self).keys_view() == old(self).keys_view().push(key@),
    {
        let ghost old_keys = self.keys_view();
        let ghost old_vals = self.vals_view();
        let ghost old_map = self.as_map();
        match self.position(key.as_str()) {
            Some(i) => {
                self.vals.set(i, val);
                proof {
                    assert(self.keys_view() == old_keys);
                    assert(self.vals_view() == old_vals.update(i as int, val));
                    assert forall|k: Seq<char>| self.keys_view().contains(k) implies
                        #[trigger] self.vals_view()[self.keys_view().index_of(k)]
                            == (if k == key@ { val } else { old_vals[old_keys.index_of(k)] }) by {
                        let j = choose|j: int| 0 <= j < old_keys.len() && old_keys[j] == k;
                        lemma_index_of_unique(old_keys, j);
                    }
                    assert(self.as_map() =~= old_map.insert(key@, val));
                }
            }
            None => {
                let ghost kv = key@;
                self.keys.push(key);
                self.vals.push(val);
                proof {
                    assert(self.keys_view() =~= old_keys.push(kv));
                    assert(self.vals_view() == old_vals.push(val));
                    assert(self.keys_view().no_duplicates()) by {
                        assert forall|a: int, b: int| 0 <= a < b < self.keys_view().len()
                            implies self.keys_view()[a] != self.keys_view()[b] by {
                            if b == old_keys.len() {
                                assert(old_keys.contains(old_keys[a]));
                            }
                        }
                    }
                    assert forall|k: Seq<char>| #[trigger] self.keys_view().contains(k) <==> (old_keys.contains(k) || k == kv) by {
                        if old_keys.contains(k) {
                            let j = choose|j: int| 0 <= j < old_keys.len() && old_keys[j] == k;
                            assert(self.keys_view()[j] == k);
                        }
                        if k == kv {
                            assert(self.keys_view()[old_keys.len() as int] == k);
                        }
                    }
                    assert forall|k: Seq<char>| self.keys_view().contains(k) implies
                        #[trigger] self.vals_view()[self.keys_view().index_of(k)]
                            == (if k == kv { val } else { old_vals[old_keys.index_of(k)] }) by {
                        if k == kv {
                            lemma_index_of_unique(self.keys_view(), old_keys.len() as int);
                        } else {
                            let j = choose|j: int| 0 <= j < old_keys.len() && old_keys[j] == k;
                            lemma_index_of_unique(old_keys, j);
                            lemma_index_of_unique(self.keys_view(), j);
                        }
                    }
                    assert(self.as_map() =~= old_map.insert(kv, val));
                }
            }
        }
    }

    /// Removes `key`; returns its value when it was present. The other names keep their order.
    pub fn remove(&mut self, key: &str) -> (r: Option<V>)
        requires old(self).wf(),
        ensures
            final(self).wf(),
            final(self).as_map() == old(self).as_map().remove(key@),
            r is Some <==> old(self).as_map().contains_key(key@),
            r matches Some(v) ==> v == old(self).as_map()[key@],
            r is None ==> final(self).keys_view() == old(self).keys_view(),
    {
        let ghost old_keys = self.keys_view();
        let ghost old_vals = self.vals_view();
        let ghost old_map = self.as_map();
        match self.position(key) {
            Some(i) => {
                proof { self.lemma_at(i as int); }
                let _k = self.keys.remove(i);
                let v = self.vals.remove(i);
                proof {
                    assert(self.keys_view() =~= old_keys.remove(i as int));
                    assert(self.vals_view() == old_vals.remove(i as int));
                    assert(self.keys_view().no_duplicates()) by {
                        assert forall|a: int, b: int| 0 <= a < b < self.keys_view().len()
                            implies self.keys_view()[a] != self.keys_view()[b] by {
                            let oa = if a < i { a } else { a + 1 };
                            let ob = if b < i { b } else { b + 1 };
                            assert(self.keys_view()[a] == old_keys[oa]);
                            assert(self.keys_view()[b] == old_keys[ob]);
                        }
                    }
                    assert forall|k: Seq<char>| #[trigger] self.keys_view().contains(k) <==> (old_keys.contains(k) && k != key@) by {
                        if old_keys.contains(k) && k != key@ {
                            let j = choose|j: int| 0 <= j < old_keys.len() && old_keys[j] == k;
                            if j < i {
                                assert(self.keys_view()[j] == k);
                            } else {
                                assert(j != i);
                                assert(self.keys_view()[j - 1] == k);
                            }
                        }
                        if self.keys_view().contains(k) {
                            let j = choose|j: int| 0 <= j < self.keys_view().len() && self.keys_view()[j] == k;
                            let oj = if j < i { j } else { j + 1 };
                            assert(old_keys[oj] == k);
                            assert(oj != i);
                        }
                    }
                    assert forall|k: Seq<char>| self.keys_view().contains(k) implies
                        #[trigger] self.vals_view()[self.keys_view().index_of(k)] == old_vals[old_keys.index_of(k)] by {
                        let j = choose|j: int| 0 <= j < self.keys_view().len() && self.keys_view()[j] == k;
                        lemma_index_of_unique(self.keys_view(), j);
                        let oj = if j < i { j } else { j + 1 };
                        assert(old_keys[oj] == k);
                        lemma_index_of_unique(old_keys, oj);
                    }
                    assert(self.as_map() =~= old_map.remove(key@));
                }
                Some(v)
            }
            None => {
                assert(old_map.remove(key@) =~= old_map);
                None
            }
        }
    }
}

} // verus!
