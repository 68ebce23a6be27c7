//! Small name-keyed collections: a map from names to values that keeps
//! its entries in the order they were first inserted, and a set of names.
use vstd::prelude::*;
use crate::text::str_eq;

verus! {

/// A map from names to values. Each name occurs at most once; entries
/// keep the order in which their names were first inserted.
pub struct NameMap<V> {
    entries: Vec<(String, V)>,
}

impl<V> NameMap<V> {
    #[verifier::type_invariant]
    spec fn unique_names(self) -> bool {
        self.keys().no_duplicates()
    }

    /// The names, in insertion order.
    pub closed spec fn keys(&self) -> Seq<Seq<char>> {
        self.entries@.map_values(|e: (String, V)| e.0@)
    }

    /// The values, in the order of `keys`.
    pub closed spec fn values(&self) -> Seq<V> {
        self.entries@.map_values(|e: (String, V)| e.1)
    }

    /// The map from each name to its value.
    pub open spec fn view(&self) -> Map<Seq<char>, V> {
        Map::new(
            |k: Seq<char>| self.keys().contains(k),
            |k: Seq<char>| self.values()[self.keys().index_of(k)],
        )
    }

    /// Names and values line up, the names are distinct, and the map
    /// sends the name at each position to the value there.
    proof fn lemma_shape(&self)
        requires
            self.keys().no_duplicates(),
        ensures
            self.keys().len() == self.values().len(),
            self.keys().no_duplicates(),
            forall|i: int|
                0 <= i < self.keys().len() ==> #[trigger] self.view()[self.keys()[i]]
                    == self.values()[i],
            forall|k: Seq<char>| #[trigger]
                self.view().contains_key(k) <==> self.keys().contains(k),
    {
        assert forall|i: int| 0 <= i < self.keys().len() implies #[trigger] self.view()[self.keys()[i]]
            == self.values()[i] by {
            let k = self.keys()[i];
            assert(self.keys().contains(k));
            let j = self.keys().index_of(k);
            assert(self.keys()[j] == k);
            assert(i == j);
        }
    }

    /// A name is in the map exactly when it is one of the keys.
    pub proof fn lemma_view_keys(&self)
        ensures
            forall|k: Seq<char>| #[trigger] self.view().contains_key(k) <==> self.keys().contains(k),
    {
    }

    /// An empty map.
    pub fn new() -> (m: Self)
        ensures
            m.keys() == Seq::<Seq<char>>::empty(),
            m.values() == Seq::<V>::empty(),
            m.view() == Map::<Seq<char>, V>::empty(),
    {
        let m = NameMap { entries: Vec::new() };
        assert(m.keys() =~= Seq::<Seq<char>>::empty());
        assert(m.values() =~= Seq::<V>::empty());
        assert(m.view() =~= Map::<Seq<char>, V>::empty());
        m
    }

    /// The number of names.
    pub fn len(&self) -> (n: usize)
        ensures
            n == self.keys().len(),
            n == self.values().len(),
            self.view().dom().finite(),
            n == self.view().dom().len(),
    {
        proof {
            use_type_invariant(self);
            assert(self.view().dom() =~= self.keys().to_set());
            self.keys().unique_seq_to_set();
        }
        self.entries.len()
    }

    /// Whether the map has no entry.
    pub fn is_empty(&self) -> (b: bool)
        ensures
            b == (self.keys().len() == 0),
    {
        self.entries.len() == 0
    }

    /// The position of `name`, if present.
    pub fn find(&self, name: &str) -> (r: Option<usize>)
        ensures
            r matches Some(i) ==> i < self.keys().len() && self.keys()[i as int] == name@,
            r is None ==> !self.keys().contains(name@),
            r is None <==> !self.view().contains_key(name@),
    {
        proof {
            use_type_invariant(self);
            self.lemma_shape();
        }
        let mut i: usize = 0;
        while i < self.entries.len()
            invariant
                i <= self.entries.len(),
                forall|j: int| 0 <= j < i ==> #[trigger] self.keys()[j] != name@,
            decreases self.entries.len() - i,
        {
            if str_eq(self.entries[i].0.as_str(), name) {
                assert(self.keys()[i as int] == name@);
                assert(self.keys().contains(name@));
                return Some(i);
            }
            i = i + 1;
        }
        None
    }

    /// Whether `name` is present.
    pub fn contains_key(&self, name: &str) -> (b: bool)
        ensures
            b == self.view().contains_key(name@),
    {
        self.find(name).is_some()
    }

    /// The value for `name`, if present.
    pub fn get(&self, name: &str) -> (r: Option<&V>)
        ensures
            r matches Some(v) ==> self.view().contains_key(name@) && *v == self.view()[name@],
            r is None ==> !self.view().contains_key(name@),
    {
        proof {
            use_type_invariant(self);
            self.lemma_shape();
        }
        match self.find(name) {
            Some(i) => Some(&self.entries[i].1),
            None => None,
        }
    }

    /// The name at position `i`.
    pub fn key_at(&self, i: usize) -> (k: &String)
        requires
            i < self.keys().len(),
        ensures
            k@ == self.keys()[i as int],
    {
        &self.entries[i].0
    }

    /// The value at position `i`.
    pub fn value_at(&self, i: usize) -> (v: &V)
        requires
            i < self.keys().len(),
        ensures
            *v == self.values()[i as int],
    {
        &self.entries[i].1
    }

    /// Map `name` to `value`: a new name goes last, a present name keeps
    /// its position and gets the new value.
    pub fn insert(&mut self, name: String, value: V)
        ensures
            final(self).view() == old(self).view().insert(name@, value),
            old(self).keys().contains(name@) ==> final(self).keys() == old(self).keys(),
            !old(self).keys().contains(name@) ==> final(self).keys() == old(self).keys().push(
                name@,
            ) && final(self).values() == old(self).values().push(value),
    {
        proof {
            use_type_invariant(&*self);
            self.lemma_shape();
        }
        let ghost old_self = *self;
        let found = self.find(name.as_str());
        let mut entries = Vec::new();
        std::mem::swap(&mut entries, &mut self.entries);
        match found {
            Some(i) => {
                let ghost ek = entries@.map_values(|e: (String, V)| e.0@);
                entries.set(i, (name, value));
                assert(entries@.map_values(|e: (String, V)| e.0@) =~= ek);
            },
            None => {
                let ghost ek = entries@.map_values(|e: (String, V)| e.0@);
                entries.push((name, value));
                assert(entries@.map_values(|e: (String, V)| e.0@) =~= ek.push(name@));
                assert(entries@.map_values(|e: (String, V)| e.1) =~= old_self.values().push(
                    value,
                ));
                assert forall|a: int, b: int|
                    0 <= a < b < ek.len() + 1 implies ek.push(name@)[a] != ek.push(name@)[b] by {
                    if b == ek.len() {
                        assert(ek.contains(ek[a]));
                    }
                }
            },
        }
        self.entries = entries;
        proof {
            self.lemma_shape();
            assert forall|k: Seq<char>|
                #![trigger self.keys().contains(k)]
                self.keys().contains(k) <==> (k == name@ || old_self.keys().contains(k)) by {
                if found is None {
                    if k == name@ {
                        assert(self.keys()[old_self.keys().len() as int] == k);
                    }
                    if old_self.keys().contains(k) {
                        let j = old_self.keys().index_of(k);
                        assert(self.keys()[j] == k);
                    }
                    if self.keys().contains(k) {
                        let j = self.keys().index_of(k);
                        if j < old_self.keys().len() {
                            assert(old_self.keys()[j] == k);
                        }
                    }
                } else {
                    assert(old_self.keys().contains(name@));
                }
            }
            assert forall|k: Seq<char>| #[trigger] self.view().contains_key(k) implies self.view()[k]
                == old_self.view().insert(name@, value)[k] by {
                assert(self.keys().contains(k));
                if k != name@ {
                    assert(old_self.keys().contains(k));
                    let oj = old_self.keys().index_of(k);
                    assert(old_self.keys()[oj] == k);
                    assert(self.keys()[oj] == k);
                    assert(self.view()[self.keys()[oj]] == self.values()[oj]);
                    assert(old_self.view()[old_self.keys()[oj]] == old_self.values()[oj]);
                } else {
                    let j: int = if found is Some {
                        found->0 as int
                    } else {
                        old_self.keys().len() as int
                    };
                    assert(self.keys()[j] == k);
                    assert(self.view()[self.keys()[j]] == self.values()[j]);
                }
            }
            assert(self.view() =~= old_self.view().insert(name@, value));
        }
    }

    /// Remove every entry.
    pub fn clear(&mut self)
        ensures
            final(self).keys() == Seq::<Seq<char>>::empty(),
            final(self).view() == Map::<Seq<char>, V>::empty(),
    {
        self.entries = Vec::new();
        assert(self.keys() =~= Seq::<Seq<char>>::empty());
        assert(self.view() =~= Map::<Seq<char>, V>::empty());
    }
}

/// A set of names.
pub struct NameSet {
    names: NameMap<()>,
}

impl NameSet {
    /// The names in the set.
    pub closed spec fn view(&self) -> Set<Seq<char>> {
        self.names.view().dom()
    }

    /// An empty set.
    pub fn new() -> (s: Self)
        ensures
            s@ == Set::<Seq<char>>::empty(),
    {
        let s = NameSet { names: NameMap::new() };
        assert(s@ =~= Set::<Seq<char>>::empty());
        s
    }

    /// Whether `name` is in the set.
    pub fn contains(&self, name: &str) -> (b: bool)
        ensures
            b == self@.contains(name@),
    {
        self.names.contains_key(name)
    }

    /// Add `name` to the set.
    pub fn insert(&mut self, name: String)
        ensures
            final(self)@ == old(self)@.insert(name@),
    {
        self.names.insert(name, ());
        assert(self@ =~= old(self)@.insert(name@));
    }

    /// The number of names in the set.
    pub fn len(&self) -> (n: usize)
        ensures
            self@.finite(),
            n == self@.len(),
    {
        self.names.len()
    }
}

} // verus!
