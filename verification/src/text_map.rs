//! Map from text to values that keeps its keys in the order of their insertion.
use vstd::prelude::*;

verus! {

/// Map from text to values; no key stands in it twice.
#[derive(Debug)]
pub struct TextMap<V> {
    keys: Vec<String>,
    values: Vec<V>,
}

spec fn texts(keys: Seq<String>) -> Seq<Seq<char>> {
    keys.map_values(|key: String| key@)
}

spec fn map_of<V>(keys: Seq<Seq<char>>, values: Seq<V>) -> Map<Seq<char>, V> {
    Map::new(
        |key: Seq<char>| keys.contains(key),
        |key: Seq<char>| values[keys.index_of(key)],
    )
}

proof fn lemma_index_of(keys: Seq<Seq<char>>, index: int)
    requires
        keys.no_duplicates(),
        0 <= index < keys.len(),
    ensures
        keys.contains(keys[index]),
        keys.index_of(keys[index]) == index,
{
    let key = keys[index];
    assert(keys.contains(key));
    let found = keys.index_of(key);
    assert(0 <= found < keys.len() && keys[found] == key);
}

impl<V> View for TextMap<V> {
    type V = Map<Seq<char>, V>;

    closed spec fn view(&self) -> Map<Seq<char>, V> {
        map_of(texts(self.keys@), self.values@)
    }
}

impl<V: Clone> Clone for TextMap<V> {
    fn clone(&self) -> (copy: Self)
        ensures
            copy.spec_keys() == self.spec_keys(),
            copy@.dom() == self@.dom(),
            forall|key: Seq<char>| #[trigger]
                copy@.dom().contains(key) ==> cloned::<V>(self@[key], copy@[key]),
    {
        proof {
            use_type_invariant(self);
        }
        let mut keys: Vec<String> = Vec::new();
        let mut values: Vec<V> = Vec::new();
        let mut at: usize = 0;
        while at < self.keys.len()
            invariant
                at <= self.keys@.len(),
                self.keys@.len() == self.values@.len(),
                keys@.len() == at,
                values@.len() == at,
                forall|i: int| 0 <= i < at ==> (#[trigger] keys@[i])@ == self.keys@[i]@,
                forall|i: int| 0 <= i < at ==> cloned::<V>(self.values@[i], #[trigger] values@[i]),
            decreases self.keys@.len() - at,
        {
            keys.push(self.keys[at].clone());
            values.push(self.values[at].clone());
            at += 1;
        }
        proof {
            assert(texts(keys@) =~= texts(self.keys@));
        }
        let copy = TextMap { keys, values };
        proof {
            assert(copy@.dom() =~= self@.dom());
            assert forall|key: Seq<char>| #[trigger] copy@.dom().contains(key) implies cloned::<V>(
                self@[key],
                copy@[key],
            ) by {
                let index = texts(self.keys@).index_of(key);
                assert(0 <= index < self.keys@.len());
                assert(copy@[key] == values@[index]);
            }
        }
        copy
    }
}

impl<V> TextMap<V> {
    #[verifier::type_invariant]
    spec fn is_well_formed(self) -> bool {
        self.keys@.len() == self.values@.len() && texts(self.keys@).no_duplicates()
    }

    /// The keys, in the order of their insertion.
    pub closed spec fn spec_keys(self) -> Seq<Seq<char>> {
        texts(self.keys@)
    }

    /// A map without keys.
    pub fn new() -> (map: Self)
        ensures
            map@ == Map::<Seq<char>, V>::empty(),
            map.spec_keys() == Seq::<Seq<char>>::empty(),
    {
        let map = TextMap { keys: Vec::new(), values: Vec::new() };
        proof {
            assert(map@ =~= Map::<Seq<char>, V>::empty());
            assert(map.spec_keys() =~= Seq::<Seq<char>>::empty());
        }
        map
    }

    fn find(&self, key: &str) -> (found: Option<usize>)
        ensures
            match found {
                Some(index) => index < self.keys@.len() && self.keys@[index as int]@ == key@,
                None => !texts(self.keys@).contains(key@),
            },
    {
        let mut at: usize = 0;
        while at < self.keys.len()
            invariant
                at <= self.keys@.len(),
                forall|i: int| 0 <= i < at ==> self.keys@[i]@ != key@,
            decreases self.keys@.len() - at,
        {
            if *self.keys[at].as_str() == *key {
                return Some(at);
            }
            at += 1;
        }
        None
    }

    /// Whether the map holds the key.
    pub fn contains_key(&self, key: &str) -> (yes: bool)
        ensures
            yes == self@.dom().contains(key@),
    {
        match self.find(key) {
            Some(index) => {
                proof {
                    assert(texts(self.keys@)[index as int] == key@);
                }
                true
            },
            None => false,
        }
    }

    /// The value of a key.
    pub fn get(&self, key: &str) -> (value: Option<&V>)
        ensures
            match value {
                Some(v) => self@.dom().contains(key@) && *v == self@[key@],
                None => !self@.dom().contains(key@),
            },
    {
        proof {
            use_type_invariant(self);
        }
        match self.find(key) {
            Some(index) => {
                proof {
                    lemma_index_of(texts(self.keys@), index as int);
                }
                Some(&self.values[index])
            },
            None => None,
        }
    }

    /// Sets the value of a key; a new key stands behind the others.
    pub fn insert(&mut self, key: String, value: V)
        ensures
            final(self)@ == old(self)@.insert(key@, value),
            final(self).spec_keys() == if old(self)@.dom().contains(key@) {
                old(self).spec_keys()
            } else {
                old(self).spec_keys().push(key@)
            },
    {
        proof {
            use_type_invariant(&*self);
        }
        let ghost old_keys = texts(self.keys@);
        let ghost old_values = self.values@;
        let ghost text = key@;
        let found = self.find(key.as_str());
        let mut taken: TextMap<V> = TextMap::new();
        std::mem::swap(self, &mut taken);
        let TextMap { mut keys, mut values } = taken;
        match found {
            Some(index) => {
                values.set(index, value);
                proof {
                    lemma_index_of(old_keys, index as int);
                    assert forall|other: Seq<char>|
                        old_keys.contains(other) && other != text implies values@[old_keys.index_of(
                        other,
                    )] == old_values[old_keys.index_of(other)] by {
                        let i = old_keys.index_of(other);
                        assert(old_keys[i] == other);
                    }
                    assert(map_of(texts(keys@), values@) =~= map_of(old_keys, old_values).insert(
                        text,
                        value,
                    ));
                }
            },
            None => {
                keys.push(key);
                values.push(value);
                proof {
                    let new_keys = texts(keys@);
                    assert(new_keys =~= old_keys.push(text));
                    assert forall|i: int, j: int|
                        0 <= i < new_keys.len() && 0 <= j < new_keys.len() && i
                            != j implies new_keys[i] != new_keys[j] by {
                        if i == old_keys.len() {
                            assert(old_keys.contains(old_keys[j]));
                        }
                        if j == old_keys.len() {
                            assert(old_keys.contains(old_keys[i]));
                        }
                    }
                    lemma_index_of(new_keys, old_keys.len() as int);
                    assert forall|other: Seq<char>| other != text implies new_keys.contains(other)
                        == old_keys.contains(other) by {
                        if old_keys.contains(other) {
                            let i = old_keys.index_of(other);
                            assert(new_keys[i] == other);
                        }
                        if new_keys.contains(other) {
                            let i = new_keys.index_of(other);
                            assert(old_keys[i] == other);
                        }
                    }
                    assert forall|other: Seq<char>|
                        old_keys.contains(other) && other
                            != text implies values@[new_keys.index_of(other)]
                        == old_values[old_keys.index_of(other)] by {
                        let i = old_keys.index_of(other);
                        assert(old_keys[i] == other);
                        assert(new_keys[i] == other);
                        lemma_index_of(new_keys, i);
                    }
                    assert(map_of(new_keys, values@) =~= map_of(old_keys, old_values).insert(
                        text,
                        value,
                    ));
                }
            },
        }
        *self = TextMap { keys, values };
    }

    /// Takes a key and its value out of the map.
    pub fn remove(&mut self, key: &str) -> (value: Option<V>)
        ensures
            final(self)@ == old(self)@.remove(key@),
            match value {
                Some(v) => old(self)@.dom().contains(key@) && v == old(self)@[key@],
                None => !old(self)@.dom().contains(key@),
            },
            final(self).spec_keys() == if old(self)@.dom().contains(key@) {
                old(self).spec_keys().remove(old(self).spec_keys().index_of(key@))
            } else {
                old(self).spec_keys()
            },
    {
        proof {
            use_type_invariant(&*self);
        }
        let ghost old_keys = texts(self.keys@);
        let ghost old_values = self.values@;
        let ghost text = key@;
        match self.find(key) {
            Some(index) => {
                let mut taken: TextMap<V> = TextMap::new();
                std::mem::swap(self, &mut taken);
                let TextMap { mut keys, mut values } = taken;
                let _key = keys.remove(index);
                let value = values.remove(index);
                proof {
                    let new_keys = texts(keys@);
                    assert(new_keys =~= old_keys.remove(index as int));
                    lemma_index_of(old_keys, index as int);
                    assert forall|i: int, j: int|
                        0 <= i < new_keys.len() && 0 <= j < new_keys.len() && i
                            != j implies new_keys[i] != new_keys[j] by {
                        assert(new_keys[i] == old_keys[if i < index { i } else { i + 1 }]);
                        assert(new_keys[j] == old_keys[if j < index { j } else { j + 1 }]);
                    }
                    assert forall|other: Seq<char>| true implies new_keys.contains(other) == (other
                        != text && old_keys.contains(other)) by {
                        if new_keys.contains(other) {
                            let i = new_keys.index_of(other);
                            let k = if i < index { i } else { i + 1 };
                            assert(old_keys[k] == other);
                            assert(old_keys[index as int] == text);
                        }
                        if other != text && old_keys.contains(other) {
                            let k = old_keys.index_of(other);
                            let i = if k < index { k } else { k - 1 };
                            assert(new_keys[i] == other);
                        }
                    }
                    assert forall|other: Seq<char>|
                        other != text && old_keys.contains(other) implies values@[new_keys.index_of(
                        other,
                    )] == old_values[old_keys.index_of(other)] by {
                        let k = old_keys.index_of(other);
                        assert(old_keys[k] == other);
                        let i = if k < index { k } else { k - 1 };
                        assert(new_keys[i] == other);
                        lemma_index_of(new_keys, i);
                    }
                    assert(map_of(new_keys, values@) =~= map_of(old_keys, old_values).remove(
                        text,
                    ));
                }
                *self = TextMap { keys, values };
                Some(value)
            },
            None => {
                proof {
                    assert(self@ =~= self@.remove(text));
                }
                None
            },
        }
    }

    /// Takes every key out of the map.
    pub fn clear(&mut self)
        ensures
            final(self)@ == Map::<Seq<char>, V>::empty(),
            final(self).spec_keys() == Seq::<Seq<char>>::empty(),
    {
        *self = TextMap::new();
    }

    /// Number of keys.
    pub fn len(&self) -> (count: usize)
        ensures
            count == self.spec_keys().len(),
            self@.dom().finite(),
            count == self@.dom().len(),
    {
        proof {
            use_type_invariant(self);
            let keys = texts(self.keys@);
            keys.unique_seq_to_set();
            assert(self@.dom() =~= keys.to_set());
            vstd::seq_lib::seq_to_set_is_finite(keys);
        }
        self.keys.len()
    }

    /// Whether the map holds no key.
    pub fn is_empty(&self) -> (yes: bool)
        ensures
            yes == (self@ == Map::<Seq<char>, V>::empty()),
            yes == (self.spec_keys().len() == 0),
    {
        proof {
            if self.keys@.len() == 0 {
                assert(self@ =~= Map::<Seq<char>, V>::empty());
            } else {
                assert(texts(self.keys@).contains(texts(self.keys@)[0]));
                assert(self@.dom().contains(texts(self.keys@)[0]));
            }
        }
        self.keys.len() == 0
    }

    /// The key at a position.
    pub fn key_at(&self, index: usize) -> (key: &String)
        requires
            index < self.spec_keys().len(),
        ensures
            key@ == self.spec_keys()[index as int],
            self@.dom().contains(key@),
    {
        proof {
            assert(texts(self.keys@)[index as int] == self.keys@[index as int]@);
        }
        &self.keys[index]
    }

    /// The value at a position.
    pub fn value_at(&self, index: usize) -> (value: &V)
        requires
            index < self.spec_keys().len(),
        ensures
            self@.dom().contains(self.spec_keys()[index as int]),
            *value == self@[self.spec_keys()[index as int]],
    {
        proof {
            use_type_invariant(self);
            lemma_index_of(texts(self.keys@), index as int);
        }
        &self.values[index]
    }

    /// The keys, in the order of their insertion.
    pub fn keys(&self) -> (keys: &[String])
        ensures
            keys@.len() == self.spec_keys().len(),
            forall|i: int| 0 <= i < keys@.len() ==> (#[trigger] keys@[i])@ == self.spec_keys()[i],
            self.spec_keys().no_duplicates(),
            forall|key: Seq<char>| #[trigger]
                self@.dom().contains(key) <==> self.spec_keys().contains(key),
    {
        proof {
            use_type_invariant(self);
        }
        self.keys.as_slice()
    }
}

/// What was put under a key is found there and nowhere else, in the order of the first inserts;
/// what was removed is handed out and no longer found.
pub proof fn lemma_keys_are_kept_apart<V>(other: Seq<char>)
    ensures
        forall|map: &mut TextMap<V>, key: String, value: V|
            #[trigger] call_ensures(TextMap::<V>::insert, (map, key, value), ()) ==> {
                let after = final(map)@;
                &&& after.dom().contains(key@)
                &&& after[key@] == value
                &&& other != key@ ==> after.dom().contains(other) == (*map)@.dom().contains(other)
                &&& other != key@ && after.dom().contains(other) ==> after[other] == (*map)@[other]
                &&& !(*map)@.dom().contains(key@) ==> final(map).spec_keys() == (
                *map).spec_keys().push(key@)
                &&& (*map)@.dom().contains(key@) ==> final(map).spec_keys() == (*map).spec_keys()
            },
        forall|map: &mut TextMap<V>, key: &str, value: Option<V>|
            #[trigger] call_ensures(TextMap::<V>::remove, (map, key), value) ==> {
                let after = final(map)@;
                &&& !after.dom().contains(key@)
                &&& value is Some <==> (*map)@.dom().contains(key@)
                &&& value is Some ==> value->0 == (*map)@[key@]
                &&& other != key@ ==> after.dom().contains(other) == (*map)@.dom().contains(other)
                &&& other != key@ && after.dom().contains(other) ==> after[other] == (*map)@[other]
            },
        forall|map: &TextMap<V>, key: &str, value: Option<&V>|
            #[trigger] call_ensures(TextMap::<V>::get, (map, key), value) ==> {
                &&& value is Some <==> map@.dom().contains(key@)
                &&& value is Some ==> *(value->0) == map@[key@]
            },
        forall|map: &mut TextMap<V>|
            #[trigger] call_ensures(TextMap::<V>::clear, (map,), ()) ==> !final(map)@.dom().contains(other),
{
}

} // verus!
