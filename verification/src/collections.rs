//! Sets and maps keyed by text, which keep their entries in insertion order.

use crate::text::{same, starts_with};
use vstd::prelude::*;

verus! {

/// `keys` holds no text twice.
pub open spec fn distinct_texts(keys: Seq<Seq<char>>) -> bool {
    forall|i: int, j: int| 0 <= i < j < keys.len() ==> keys[i] != keys[j]
}

/// The texts of a list of strings.
pub open spec fn texts(items: Seq<String>) -> Seq<Seq<char>> {
    items.map_values(|s: String| s@)
}

/// The set of the texts of a list of strings.
pub open spec fn text_set(items: Seq<String>) -> Set<Seq<char>> {
    texts(items).to_set()
}

/// A text begins with one of a set of texts.
pub open spec fn holds_prefix(prefixes: Set<Seq<char>>, text: Seq<char>) -> bool {
    exists|p: Seq<char>| #[trigger] prefixes.contains(p) && p.is_prefix_of(text)
}

/// A set of strings.
#[derive(Debug)]
pub struct StringSet {
    items: Vec<String>,
}

impl View for StringSet {
    type V = Set<Seq<char>>;

    closed spec fn view(&self) -> Set<Seq<char>> {
        text_set(self.items@)
    }
}

impl StringSet {
    #[verifier::type_invariant]
    spec fn no_duplicates(self) -> bool {
        distinct_texts(texts(self.items@))
    }

    /// The empty set.
    pub fn new() -> (s: Self)
        ensures
            s@ == Set::<Seq<char>>::empty(),
    {
        let s = StringSet { items: Vec::new() };
        assert(s@ =~= Set::<Seq<char>>::empty());
        s
    }

    /// The set of the strings of a list.
    pub fn from_vec(list: Vec<String>) -> (s: Self)
        ensures
            s@ == text_set(list@),
    {
        let mut s = StringSet::new();
        let mut i: usize = 0;
        while i < list.len()
            invariant
                i <= list@.len(),
                s@ == text_set(list@.take(i as int)),
            decreases list@.len() - i,
        {
            s.insert(list[i].clone());
            proof {
                let before = texts(list@.take(i as int));
                let after = texts(list@.take(i + 1));
                assert(after == before.push(list@[i as int]@));
                assert(after.to_set() =~= before.to_set().insert(list@[i as int]@)) by {
                    assert(after[i as int] == list@[i as int]@);
                    assert forall|k: Seq<char>| before.contains(k) implies after.contains(k) by {
                        let j = before.index_of(k);
                        assert(after[j] == k);
                    }
                }
            }
            i += 1;
        }
        assert(list@.take(list@.len() as int) == list@);
        s
    }

    fn position(&self, text: &str) -> (p: Option<usize>)
        ensures
            match p {
                Some(i) => i < self.items@.len() && self.items@[i as int]@ == text@,
                None => !self@.contains(text@),
            },
    {
        let mut i: usize = 0;
        while i < self.items.len()
            invariant
                i <= self.items@.len(),
                forall|j: int| 0 <= j < i ==> self.items@[j]@ != text@,
            decreases self.items@.len() - i,
        {
            if same(self.items[i].as_str(), text) {
                return Some(i);
            }
            i += 1;
        }
        None
    }

    /// Whether the set holds a text.
    pub fn contains(&self, text: &str) -> (b: bool)
        ensures
            b == self@.contains(text@),
    {
        match self.position(text) {
            Some(i) => {
                assert(texts(self.items@)[i as int] == text@);
                true
            },
            None => false,
        }
    }

    /// Whether a text begins with one of the strings.
    pub fn holds_prefix_of(&self, text: &str) -> (b: bool)
        ensures
            b == holds_prefix(self@, text@),
    {
        let mut i: usize = 0;
        while i < self.items.len()
            invariant
                i <= self.items.len(),
                forall|j: int| 0 <= j < i ==> !(#[trigger] self.items@[j]@).is_prefix_of(text@),
            decreases self.items.len() - i,
        {
            if starts_with(text, self.items[i].as_str()) {
                proof {
                    let p = self.items@[i as int]@;
                    assert(texts(self.items@)[i as int] == p);
                    assert(self@.contains(p) && p.is_prefix_of(text@));
                }
                return true;
            }
            i += 1;
        }
        proof {
            if holds_prefix(self@, text@) {
                let p = choose|p: Seq<char>| #[trigger] self@.contains(p) && p.is_prefix_of(text@);
                let j = texts(self.items@).index_of(p);
                assert(self.items@[j]@ == p);
            }
        }
        false
    }

    /// Whether the set holds nothing.
    pub fn is_empty(&self) -> (b: bool)
        ensures
            b == (self@ == Set::<Seq<char>>::empty()),
    {
        if self.items.len() == 0 {
            assert(self@ =~= Set::<Seq<char>>::empty());
            true
        } else {
            assert(texts(self.items@)[0] == self.items@[0]@);
            assert(self@.contains(self.items@[0]@));
            false
        }
    }

    /// Adds a string; the answer says whether it is new.
    pub fn insert(&mut self, item: String) -> (added: bool)
        ensures
            final(self)@ == old(self)@.insert(item@),
            added == !old(self)@.contains(item@),
    {
        proof {
            use_type_invariant(&*self);
        }
        if self.contains(item.as_str()) {
            assert(self@ =~= self@.insert(item@));
            return false;
        }
        let ghost before = texts(self.items@);
        let mut items: Vec<String> = Vec::new();
        std::mem::swap(&mut items, &mut self.items);
        items.push(item);
        proof {
            let after = texts(items@);
            assert(after == before.push(item@));
            assert(after.to_set() =~= before.to_set().insert(item@)) by {
                assert(after[before.len() as int] == item@);
                assert forall|k: Seq<char>| before.contains(k) implies after.contains(k) by {
                    assert(after[before.index_of(k)] == k);
                }
            }
            assert(forall|j: int| 0 <= j < before.len() ==> before.contains(before[j]));
        }
        self.items = items;
        true
    }

    /// Takes a string out; the answer says whether it was there.
    pub fn remove(&mut self, item: &str) -> (removed: bool)
        ensures
            final(self)@ == old(self)@.remove(item@),
            removed == old(self)@.contains(item@),
    {
        proof {
            use_type_invariant(&*self);
        }
        match self.position(item) {
            None => {
                assert(self@ =~= self@.remove(item@));
                false
            },
            Some(i) => {
                let ghost before = texts(self.items@);
                let mut items: Vec<String> = Vec::new();
                std::mem::swap(&mut items, &mut self.items);
                items.remove(i);
                proof {
                    let after = texts(items@);
                    assert(before[i as int] == item@);
                    assert(after == before.remove(i as int));
                    assert(after.to_set() =~= before.to_set().remove(item@)) by {
                        assert forall|k: Seq<char>| after.contains(k) implies before.contains(k)
                            && k != item@ by {
                            let j = after.index_of(k);
                            assert(after[j] == before[if j < i { j } else { j + 1 }]);
                        }
                        assert forall|k: Seq<char>| before.contains(k) && k != item@ implies
                            after.contains(k) by {
                            let j = before.index_of(k);
                            assert(after[if j < i { j } else { j - 1 }] == k);
                        }
                    }
                }
                self.items = items;
                true
            },
        }
    }
}

impl Clone for StringSet {
    fn clone(&self) -> (res: Self)
        ensures
            res@ == self@,
    {
        proof {
            use_type_invariant(&*self);
        }
        let mut items: Vec<String> = Vec::new();
        let mut i: usize = 0;
        while i < self.items.len()
            invariant
                i <= self.items@.len(),
                items@ == self.items@.take(i as int),
            decreases self.items@.len() - i,
        {
            items.push(self.items[i].clone());
            assert(self.items@.take(i + 1) == self.items@.take(i as int).push(
                self.items@[i as int],
            ));
            i += 1;
        }
        assert(self.items@.take(self.items@.len() as int) == self.items@);
        StringSet { items }
    }
}

impl Default for StringSet {
    fn default() -> (s: Self)
        ensures
            s@ == Set::<Seq<char>>::empty(),
    {
        StringSet::new()
    }
}

/// A map from strings to values.
#[derive(Debug)]
pub struct StringMap<V> {
    keys: Vec<String>,
    values: Vec<V>,
}

impl<V> View for StringMap<V> {
    type V = Map<Seq<char>, V>;

    closed spec fn view(&self) -> Map<Seq<char>, V> {
        Map::new(
            |k: Seq<char>| texts(self.keys@).contains(k),
            |k: Seq<char>| self.values@[texts(self.keys@).index_of(k)],
        )
    }
}

impl<V> StringMap<V> {
    #[verifier::type_invariant]
    spec fn one_value_per_key(self) -> bool {
        &&& self.keys@.len() == self.values@.len()
        &&& distinct_texts(texts(self.keys@))
    }

    /// The keys, in the order in which they were first inserted.
    pub closed spec fn order(self) -> Seq<Seq<char>> {
        texts(self.keys@)
    }

    proof fn lemma_at(self, i: int)
        requires
            self.one_value_per_key(),
            0 <= i < self.keys@.len(),
        ensures
            self@.dom().contains(self.keys@[i]@),
            self@[self.keys@[i]@] == self.values@[i],
    {
        let ks = texts(self.keys@);
        assert(ks[i] == self.keys@[i]@);
        let j = ks.index_of(self.keys@[i]@);
        assert(ks[j] == ks[i]);
    }

    /// The empty map.
    pub fn new() -> (m: Self)
        ensures
            m@ == Map::<Seq<char>, V>::empty(),
            m.order() == Seq::<Seq<char>>::empty(),
    {
        let m = StringMap { keys: Vec::new(), values: Vec::new() };
        assert(m@ =~= Map::<Seq<char>, V>::empty());
        m
    }

    fn position(&self, key: &str) -> (p: Option<usize>)
        ensures
            match p {
                Some(i) => i < self.keys@.len() && self.keys@[i as int]@ == key@,
                None => !self@.dom().contains(key@) && !texts(self.keys@).contains(key@),
            },
    {
        let mut i: usize = 0;
        while i < self.keys.len()
            invariant
                i <= self.keys@.len(),
                forall|j: int| 0 <= j < i ==> self.keys@[j]@ != key@,
            decreases self.keys@.len() - i,
        {
            if same(self.keys[i].as_str(), key) {
                return Some(i);
            }
            i += 1;
        }
        None
    }

    /// The value of a key.
    pub fn get(&self, key: &str) -> (value: Option<&V>)
        ensures
            match value {
                Some(v) => self@.dom().contains(key@) && self@[key@] == *v,
                None => !self@.dom().contains(key@),
            },
    {
        proof {
            use_type_invariant(self);
        }
        match self.position(key) {
            Some(i) => {
                proof {
                    self.lemma_at(i as int);
                }
                Some(&self.values[i])
            },
            None => None,
        }
    }

    /// Whether the map has a value for a key.
    pub fn contains_key(&self, key: &str) -> (b: bool)
        ensures
            b == self@.dom().contains(key@),
    {
        self.get(key).is_some()
    }

    /// Sets the value of a key.
    pub fn insert(&mut self, key: String, value: V)
        ensures
            final(self)@ == old(self)@.insert(key@, value),
            final(self).order() == if old(self)@.dom().contains(key@) {
                old(self).order()
            } else {
                old(self).order().push(key@)
            },
    {
        proof {
            use_type_invariant(&*self);
        }
        let ghost before = *self;
        let found = self.position(key.as_str());
        let mut keys: Vec<String> = Vec::new();
        let mut values: Vec<V> = Vec::new();
        let mut old_self = StringMap { keys, values };
        std::mem::swap(&mut old_self, self);
        let StringMap { keys: mut keys, values: mut values } = old_self;
        match found {
            Some(i) => {
                values.set(i, value);
                proof {
                    before.lemma_at(i as int);
                }
            },
            None => {
                keys.push(key);
                values.push(value);
                proof {
                    let ks = texts(before.keys@);
                    assert(texts(keys@) == ks.push(key@));
                    assert(forall|j: int| 0 <= j < ks.len() ==> ks.contains(ks[j]));
                }
            },
        }
        let after = StringMap { keys, values };
        proof {
            let ks = texts(before.keys@);
            let ks2 = texts(after.keys@);
            assert forall|k: Seq<char>|
                #![trigger after@.dom().contains(k)]
                after@.dom().contains(k) == (before@.dom().contains(k) || k == key@) by {
                if ks.contains(k) {
                    assert(ks2[ks.index_of(k)] == k);
                }
                if ks2.contains(k) {
                    let j = ks2.index_of(k);
                    if j < ks.len() {
                        assert(ks[j] == k);
                    }
                }
                if k == key@ {
                    match found {
                        Some(i) => {
                            assert(ks2[i as int] == k);
                        },
                        None => {
                            assert(ks2[ks.len() as int] == k);
                        },
                    }
                }
            }
            assert forall|k: Seq<char>| before@.dom().contains(k) && k != key@ implies
                #[trigger] after@[k] == before@[k] by {
                let j = ks.index_of(k);
                assert(before.keys@[j]@ == k);
                assert(after.keys@[j]@ == k);
                before.lemma_at(j);
                after.lemma_at(j);
            }
            match found {
                Some(i) => {
                    after.lemma_at(i as int);
                },
                None => {
                    after.lemma_at(ks.len() as int);
                },
            }
            assert(after@ =~= before@.insert(key@, value));
        }
        *self = after;
    }

    /// Takes a key and its value out of the map.
    pub fn remove(&mut self, key: &str) -> (value: Option<V>)
        ensures
            final(self)@ == old(self)@.remove(key@),
            match value {
                Some(v) => old(self)@.dom().contains(key@) && v == old(self)@[key@],
                None => !old(self)@.dom().contains(key@),
            },
    {
        proof {
            use_type_invariant(&*self);
        }
        let ghost before = *self;
        match self.position(key) {
            None => {
                assert(self@ =~= self@.remove(key@));
                None
            },
            Some(i) => {
                let mut old_self = StringMap { keys: Vec::new(), values: Vec::new() };
                std::mem::swap(&mut old_self, self);
                let StringMap { keys: mut keys, values: mut values } = old_self;
                keys.remove(i);
                let value = values.remove(i);
                proof {
                    assert(texts(keys@) == texts(before.keys@).remove(i as int));
                }
                let after = StringMap { keys, values };
                proof {
                    let ks = texts(before.keys@);
                    let ks2 = texts(after.keys@);
                    before.lemma_at(i as int);
                    assert(ks[i as int] == key@);
                    assert forall|k: Seq<char>|
                        #![trigger after@.dom().contains(k)]
                        after@.dom().contains(k) == (before@.dom().contains(k) && k != key@) by {
                        if ks.contains(k) && k != key@ {
                            let j = ks.index_of(k);
                            assert(ks2[if j < i { j } else { j - 1 }] == k);
                        }
                        if ks2.contains(k) {
                            let j = ks2.index_of(k);
                            assert(ks[if j < i { j } else { j + 1 }] == k);
                        }
                    }
                    assert forall|k: Seq<char>| after@.dom().contains(k) implies
                        #[trigger] after@[k] == before@[k] by {
                        let j = ks2.index_of(k);
                        assert(after.keys@[j]@ == k);
                        after.lemma_at(j);
                        before.lemma_at(if j < i { j } else { j + 1 });
                    }
                    assert(after@ =~= before@.remove(key@));
                }
                *self = after;
                Some(value)
            },
        }
    }

    /// The number of keys.
    pub fn len(&self) -> (n: usize)
        ensures
            n == self.order().len(),
            n == self@.dom().len(),
            self.order().no_duplicates(),
    {
        proof {
            use_type_invariant(self);
            texts(self.keys@).unique_seq_to_set();
            assert(self@.dom() =~= texts(self.keys@).to_set());
        }
        self.keys.len()
    }

    /// The value of a key by its position, for a change.
    pub fn value_mut(&mut self, i: usize) -> (v: &mut V)
        requires
            i < old(self).order().len(),
        ensures
            *v == old(self)@[old(self).order()[i as int]],
            final(self)@ == old(self)@.insert(old(self).order()[i as int], *final(v)),
            final(self).order() == old(self).order(),
    {
        proof {
            use_type_invariant(&*self);
            self.lemma_at(i as int);
        }
        &mut self.values[i]
    }

    /// The keys, in the order in which they were first inserted.
    pub fn names(&self) -> (names: Vec<&str>)
        ensures
            names@.map_values(|n: &str| n@) == self.order(),
            names@.map_values(|n: &str| n@).to_set() == self@.dom(),
            names@.map_values(|n: &str| n@).no_duplicates(),
    {
        proof {
            use_type_invariant(self);
        }
        let mut names: Vec<&str> = Vec::new();
        let mut i: usize = 0;
        while i < self.keys.len()
            invariant
                i <= self.keys.len(),
                names@.len() == i,
                forall|j: int| 0 <= j < i ==> (#[trigger] names@[j])@ == self.keys@[j]@,
            decreases self.keys.len() - i,
        {
            names.push(self.keys[i].as_str());
            i += 1;
        }
        let ghost listed = names@.map_values(|n: &str| n@);
        assert(listed =~= texts(self.keys@));
        assert(listed.to_set() =~= self@.dom());
        names
    }

    /// The key at a position of the order, with its value.
    pub fn entry(&self, i: usize) -> (e: (&String, &V))
        requires
            i < self.order().len(),
        ensures
            e.0@ == self.order()[i as int],
            self@.dom().contains(e.0@),
            *e.1 == self@[e.0@],
    {
        proof {
            use_type_invariant(self);
            self.lemma_at(i as int);
        }
        (&self.keys[i], &self.values[i])
    }
}

/// The order of a map lists its keys, and nothing else.
pub proof fn map_order_lists_the_keys<V>(m: &StringMap<V>)
    ensures
        m.order().to_set() == m@.dom(),
{
    assert(m.order().to_set() =~= m@.dom());
}

} // verus!
