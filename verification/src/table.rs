//! A small map from strings to values that remembers the order in which its keys came.

use vstd::prelude::*;
use crate::text::{str_eq, texts};

verus! {

/// A map with string keys. No key occurs twice, and a key keeps the place it first got.
pub struct Table<V> {
    names: Vec<String>,
    vals: Vec<V>,
}

/// Where `k` stands among the keys.
pub open spec fn place(keys: Seq<Seq<char>>, k: Seq<char>) -> int {
    choose|i: int| 0 <= i < keys.len() && #[trigger] keys[i] == k
}

/// The map that gives each key the value at its place.
pub closed spec fn contents<V>(keys: Seq<Seq<char>>, vals: Seq<V>) -> Map<Seq<char>, V> {
    Map::new(|k: Seq<char>| keys.contains(k), |k: Seq<char>| vals[place(keys, k)])
}

proof fn lemma_place(keys: Seq<Seq<char>>, i: int)
    requires
        keys.no_duplicates(),
        0 <= i < keys.len(),
    ensures
        keys.contains(keys[i]),
        place(keys, keys[i]) == i,
{
}

proof fn lemma_push<V>(keys: Seq<Seq<char>>, vals: Seq<V>, k: Seq<char>, v: V)
    requires
        keys.no_duplicates(),
        keys.len() == vals.len(),
        !keys.contains(k),
    ensures
        keys.push(k).no_duplicates(),
        contents(keys.push(k), vals.push(v)) == contents(keys, vals).insert(k, v),
{
    let more = keys.push(k);
    assert(more[keys.len() as int] == k);
    lemma_place(more, keys.len() as int);
    assert forall|q: Seq<char>| keys.contains(q) implies #[trigger] more.contains(q) && place(more, q)
        == place(keys, q) by {
        let j = place(keys, q);
        assert(more[j] == q);
        lemma_place(more, j);
    }
    assert(contents(more, vals.push(v)) =~= contents(keys, vals).insert(k, v));
}

proof fn lemma_update<V>(keys: Seq<Seq<char>>, vals: Seq<V>, i: int, v: V)
    requires
        keys.no_duplicates(),
        keys.len() <= vals.len(),
        0 <= i < keys.len(),
    ensures
        contents(keys, vals.update(i, v)) == contents(keys, vals).insert(keys[i], v),
{
    lemma_place(keys, i);
    assert(contents(keys, vals.update(i, v)) =~= contents(keys, vals).insert(keys[i], v));
}

proof fn lemma_remove<V>(keys: Seq<Seq<char>>, vals: Seq<V>, i: int)
    requires
        keys.no_duplicates(),
        keys.len() <= vals.len(),
        0 <= i < keys.len(),
    ensures
        keys.remove(i).no_duplicates(),
        contents(keys.remove(i), vals.remove(i)) == contents(keys, vals).remove(keys[i]),
{
    let less = keys.remove(i);
    assert forall|j: int| 0 <= j < less.len() implies #[trigger] less[j] == keys[if j < i {
        j
    } else {
        j + 1
    }] by {}
    lemma_place(keys, i);
    assert forall|q: Seq<char>| less.contains(q) <==> (q != keys[i] && #[trigger] keys.contains(q)) by {
        if keys.contains(q) && q != keys[i] {
            let j = place(keys, q);
            assert(less[if j < i {
                j
            } else {
                j - 1
            }] == q);
        }
        if less.contains(q) {
            let j = place(less, q);
            assert(keys[if j < i {
                j
            } else {
                j + 1
            }] == q);
        }
    }
    assert forall|q: Seq<char>| #[trigger] less.contains(q) implies vals.remove(i)[place(less, q)]
        == vals[place(keys, q)] by {
        let j = place(less, q);
        lemma_place(less, j);
        lemma_place(keys, if j < i {
            j
        } else {
            j + 1
        });
    }
    assert(contents(less, vals.remove(i)) =~= contents(keys, vals).remove(keys[i]));
}

impl<V> View for Table<V> {
    type V = Map<Seq<char>, V>;

    closed spec fn view(&self) -> Map<Seq<char>, V> {
        contents(self.keys(), self.vals@)
    }
}

impl<V> Table<V> {
    #[verifier::type_invariant]
    spec fn inv(self) -> bool {
        &&& self.names@.len() <= self.vals@.len()
        &&& self.keys().no_duplicates()
    }

    /// The keys in the order in which they came.
    pub closed spec fn keys(self) -> Seq<Seq<char>> {
        texts(self.names@)
    }

    /// The keys of the map are those of the list.
    pub proof fn lemma_keys(self)
        ensures
            forall|k: Seq<char>| #[trigger] self@.dom().contains(k) <==> self.keys().contains(k),
    {
    }

    /// A map without keys.
    pub fn new() -> (t: Self)
        ensures
            t@ == Map::<Seq<char>, V>::empty(),
            t.keys() == Seq::<Seq<char>>::empty(),
    {
        let t = Table { names: Vec::new(), vals: Vec::new() };
        assert(t@ =~= Map::<Seq<char>, V>::empty());
        t
    }

    /// How many keys there are.
    pub fn len(&self) -> (n: usize)
        ensures
            n == self.keys().len(),
    {
        self.names.len()
    }

    /// The key at place `i`.
    pub fn key_at(&self, i: usize) -> (k: &String)
        requires
            i < self.keys().len(),
        ensures
            k@ == self.keys()[i as int],
            self@.dom().contains(k@),
    {
        assert(self.keys().contains(self.keys()[i as int]));
        &self.names[i]
    }

    /// The value of the key at place `i`.
    pub fn val_at(&self, i: usize) -> (v: &V)
        requires
            i < self.keys().len(),
        ensures
            self@.dom().contains(self.keys()[i as int]),
            *v == self@[self.keys()[i as int]],
    {
        proof {
            use_type_invariant(self);
            lemma_place(self.keys(), i as int);
        }
        &self.vals[i]
    }

    /// The value of the key at place `i`, to be changed in place.
    pub fn at_mut(&mut self, i: usize) -> (v: &mut V)
        requires
            i < old(self).keys().len(),
        ensures
            *v == old(self)@[old(self).keys()[i as int]],
            final(self).keys() == old(self).keys(),
            final(self)@ == old(self)@.insert(old(self).keys()[i as int], *final(v)),
    {
        proof {
            use_type_invariant(&*self);
            lemma_place(self.keys(), i as int);
            let keys = self.keys();
            let vals = self.vals@;
            assert forall|x: V| contents(keys, #[trigger] vals.update(i as int, x)) == contents(
                keys,
                vals,
            ).insert(keys[i as int], x) by {
                lemma_update(keys, vals, i as int, x);
            }
        }
        &mut self.vals[i]
    }

    /// The place of a key.
    pub fn find(&self, key: &str) -> (r: Option<usize>)
        ensures
            match r {
                Some(i) => i < self.keys().len() && self.keys()[i as int] == key@
                    && self@.dom().contains(key@),
                None => !self@.dom().contains(key@),
            },
    {
        let mut i: usize = 0;
        while i < self.names.len()
            invariant
                i <= self.names@.len(),
                forall|j: int| 0 <= j < i ==> #[trigger] self.keys()[j] != key@,
            decreases self.names@.len() - i,
        {
            if str_eq(self.names[i].as_str(), key) {
                assert(self.keys()[i as int] == key@);
                return Some(i);
            }
            i += 1;
        }
        None
    }

    /// Whether `key` is there.
    pub fn contains(&self, key: &str) -> (r: bool)
        ensures
            r == self@.dom().contains(key@),
    {
        self.find(key).is_some()
    }

    /// The value of `key`.
    pub fn get(&self, key: &str) -> (r: Option<&V>)
        ensures
            match r {
                Some(v) => self@.dom().contains(key@) && *v == self@[key@],
                None => !self@.dom().contains(key@),
            },
    {
        match self.find(key) {
            Some(i) => Some(self.val_at(i)),
            None => None,
        }
    }

    /// Gives `key` the value `val`; a new key goes to the end.
    pub fn set(&mut self, key: String, val: V)
        ensures
            final(self)@ == old(self)@.insert(key@, val),
            final(self).keys() == if old(self)@.dom().contains(key@) {
                old(self).keys()
            } else {
                old(self).keys().push(key@)
            },
    {
        proof {
            use_type_invariant(&*self);
        }
        match self.find(key.as_str()) {
            Some(i) => {
                let slot = self.at_mut(i);
                *slot = val;
            },
            None => {
                let ghost keys = self.keys();
                let ghost k = key@;
                let mut names: Vec<String> = Vec::new();
                let mut vals: Vec<V> = Vec::new();
                std::mem::swap(&mut names, &mut self.names);
                std::mem::swap(&mut vals, &mut self.vals);
                vals.truncate(names.len());
                proof {
                    assert(contents(keys, vals@) =~= old(self)@);
                    lemma_push(keys, vals@, k, val);
                }
                names.push(key);
                vals.push(val);
                assert(texts(names@) == keys.push(k));
                self.vals = vals;
                self.names = names;
            },
        }
    }

    /// Takes `key` out; the other keys keep their order.
    pub fn remove(&mut self, key: &str)
        ensures
            final(self)@ == old(self)@.remove(key@),
            final(self).keys() == if old(self)@.dom().contains(key@) {
                old(self).keys().remove(place(old(self).keys(), key@))
            } else {
                old(self).keys()
            },
    {
        proof {
            use_type_invariant(&*self);
        }
        match self.find(key) {
            Some(i) => {
                let ghost keys = self.keys();
                let mut names: Vec<String> = Vec::new();
                let mut vals: Vec<V> = Vec::new();
                std::mem::swap(&mut names, &mut self.names);
                std::mem::swap(&mut vals, &mut self.vals);
                proof {
                    lemma_remove(keys, vals@, i as int);
                    lemma_place(keys, i as int);
                }
                names.remove(i);
                vals.remove(i);
                assert(texts(names@) == keys.remove(i as int));
                self.vals = vals;
                self.names = names;
            },
            None => {
                assert(self@ =~= old(self)@.remove(key@));
            },
        }
    }

    /// Takes every key out.
    pub fn clear(&mut self)
        ensures
            final(self)@ == Map::<Seq<char>, V>::empty(),
            final(self).keys() == Seq::<Seq<char>>::empty(),
    {
        self.names = Vec::new();
        self.vals = Vec::new();
        assert(self@ =~= Map::<Seq<char>, V>::empty());
    }
}

} // verus!
