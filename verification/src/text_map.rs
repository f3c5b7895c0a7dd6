//! A map from strings to values, kept in the order of first insertion.

use crate::text::{clone_strings, str_eq, texts};
use vstd::prelude::*;

verus! {

/// A map keyed by strings. No key occurs twice.
pub struct TextMap<V> {
    keys: Vec<String>,
    values: Vec<V>,
}

/// The texts held by a map of strings.
pub open spec fn text_values(m: Map<Seq<char>, String>) -> Map<Seq<char>, Seq<char>> {
    m.map_values(|v: String| v@)
}

impl<V> View for TextMap<V> {
    type V = Map<Seq<char>, V>;

    closed spec fn view(&self) -> Map<Seq<char>, V> {
        Map::new(
            |k: Seq<char>| texts(self.keys@).contains(k),
            |k: Seq<char>| self.values@[texts(self.keys@).index_of(k)],
        )
    }
}

impl<V> TextMap<V> {
    /// The keys, in the order of first insertion.
    pub closed spec fn key_order(&self) -> Seq<Seq<char>> {
        texts(self.keys@)
    }

    /// Keys and values stand side by side and no key occurs twice.
    #[verifier::type_invariant]
    spec fn well_formed(self) -> bool {
        &&& self.keys@.len() == self.values@.len()
        &&& texts(self.keys@).no_duplicates()
    }

    /// The empty map.
    pub fn new() -> (r: Self)
        ensures
            r@ == Map::<Seq<char>, V>::empty(),
            r.key_order() == Seq::<Seq<char>>::empty(),
    {
        let r = TextMap { keys: Vec::new(), values: Vec::new() };
        proof {
            assert(r@ =~= Map::<Seq<char>, V>::empty());
            assert(r.key_order() =~= Seq::<Seq<char>>::empty());
        }
        r
    }

    /// The number of keys.
    pub fn len(&self) -> (n: usize)
        ensures
            n == self.key_order().len(),
            self.key_order().no_duplicates(),
            forall|k: Seq<char>| self.key_order().contains(k) <==> self@.dom().contains(k),
    {
        proof {
            use_type_invariant(&*self);
        }
        self.keys.len()
    }

    /// The key at a position in the order of first insertion.
    pub fn key_at(&self, i: usize) -> (k: &String)
        requires
            i < self.key_order().len(),
        ensures
            k@ == self.key_order()[i as int],
            self@.dom().contains(k@),
    {
        proof {
            assert(texts(self.keys@).contains(self.keys@[i as int]@)) by {
                assert(texts(self.keys@)[i as int] == self.keys@[i as int]@);
            }
        }
        &self.keys[i]
    }

    /// The value at a position in the order of first insertion.
    pub fn value_at(&self, i: usize) -> (v: &V)
        requires
            i < self.key_order().len(),
        ensures
            self@.dom().contains(self.key_order()[i as int]),
            *v == self@[self.key_order()[i as int]],
    {
        proof {
            use_type_invariant(&*self);
            let t = texts(self.keys@);
            assert(t.contains(t[i as int]));
            assert(t.index_of(t[i as int]) == i as int);
        }
        &self.values[i]
    }

    fn position(&self, key: &str) -> (r: Option<usize>)
        ensures
            match r {
                Some(i) => i < self.keys@.len() && self.keys@[i as int]@ == key@,
                None => !texts(self.keys@).contains(key@),
            },
    {
        let mut i: usize = 0;
        while i < self.keys.len()
            invariant
                i <= self.keys@.len(),
                forall|j: int| 0 <= j < i ==> self.keys@[j]@ != key@,
            decreases self.keys.len() - i,
        {
            if str_eq(self.keys[i].as_str(), key) {
                return Some(i);
            }
            i += 1;
        }
        None
    }

    /// The value of a key.
    pub fn get(&self, key: &str) -> (r: Option<&V>)
        ensures
            match r {
                Some(v) => self@.dom().contains(key@) && *v == self@[key@],
                None => !self@.dom().contains(key@),
            },
    {
        proof {
            use_type_invariant(&*self);
        }
        match self.position(key) {
            Some(i) => {
                proof {
                    let t = texts(self.keys@);
                    assert(t[i as int] == key@);
                    assert(t.contains(key@));
                    assert(t.index_of(key@) == i as int);
                }
                Some(&self.values[i])
            },
            None => None,
        }
    }

    /// Whether a key has a value.
    pub fn contains_key(&self, key: &str) -> (r: bool)
        ensures
            r == self@.dom().contains(key@),
    {
        self.get(key).is_some()
    }

    /// Gives a key a value.
    pub fn insert(&mut self, key: String, value: V)
        ensures
            final(self)@ == old(self)@.insert(key@, value),
            final(self).key_order() == if old(self)@.dom().contains(key@) {
                old(self).key_order()
            } else {
                old(self).key_order().push(key@)
            },
    {
        proof {
            use_type_invariant(&*self);
        }
        let at = self.position(key.as_str());
        let mut taken = TextMap::new();
        std::mem::swap(self, &mut taken);
        let ghost before = taken;
        let TextMap { mut keys, mut values } = taken;
        let ghost t0 = texts(keys@);
        let ghost v0 = values@;
        match at {
            Some(i) => {
                values.set(i, value);
                proof {
                    assert(t0[i as int] == key@);
                    assert(t0.contains(key@));
                    assert(t0.index_of(key@) == i as int);
                }
            },
            None => {
                let ghost k = key@;
                keys.push(key);
                values.push(value);
                proof {
                    assert(texts(keys@) =~= t0.push(k));
                    assert(texts(keys@)[t0.len() as int] == k);
                }
            },
        }
        *self = TextMap { keys, values };
        proof {
            let t1 = texts(self.keys@);
            assert forall|k: Seq<char>| t0.contains(k) implies {
                &&& t1.contains(k)
                &&& t1.index_of(k) == t0.index_of(k)
            } by {
                let j = t0.index_of(k);
                assert(t1[j] == k);
            }
            assert(t1.contains(key@));
            assert(self@ =~= before@.insert(key@, value));
        }
    }

    /// Takes the last key in the order of insertion out, with its value.
    pub fn pop(&mut self) -> (r: Option<(String, V)>)
        ensures
            match r {
                Some((k, v)) => {
                    &&& old(self)@ == final(self)@.insert(k@, v)
                    &&& !final(self)@.dom().contains(k@)
                    &&& old(self).key_order() == final(self).key_order().push(k@)
                },
                None => final(self)@ == Map::<Seq<char>, V>::empty() && *final(self) == *old(self)
                    && old(self).key_order().len() == 0,
            },
    {
        proof {
            use_type_invariant(&*self);
        }
        if self.keys.len() == 0 {
            proof {
                assert(self@ =~= Map::<Seq<char>, V>::empty());
            }
            return None;
        }
        let mut taken = TextMap::new();
        std::mem::swap(self, &mut taken);
        let ghost before = taken;
        let TextMap { mut keys, mut values } = taken;
        let ghost t0 = texts(keys@);
        let ghost v0 = values@;
        let key = keys.pop();
        let value = values.pop();
        match (key, value) {
            (Some(k), Some(v)) => {
                let ghost t1 = texts(keys@);
                proof {
                    assert(t1 =~= t0.drop_last());
                    assert(t0 =~= t1.push(k@));
                    assert(t0[t0.len() - 1] == k@);
                    assert forall|a: int, b: int| 0 <= a < t1.len() && 0 <= b < t1.len() && a
                        != b implies t1[a] != t1[b] by {
                        assert(t1[a] == t0[a] && t1[b] == t0[b]);
                    }
                    assert forall|x: Seq<char>| t0.contains(x) <==> t1.contains(x) || x == k@ by {
                        if t1.contains(x) {
                            assert(t0[t1.index_of(x)] == x);
                        }
                        if t0.contains(x) {
                            let j = t0.index_of(x);
                            if j < t1.len() {
                                assert(t1[j] == x);
                            }
                        }
                    }
                    assert(!t1.contains(k@)) by {
                        if t1.contains(k@) {
                            let j = t1.index_of(k@);
                            assert(t0[j] == k@);
                        }
                    }
                    assert forall|x: Seq<char>| t1.contains(x) implies t0.index_of(x)
                        == t1.index_of(x) by {
                        assert(t0[t1.index_of(x)] == x);
                    }
                    assert(t0.index_of(k@) == t0.len() - 1);
                }
                *self = TextMap { keys, values };
                proof {
                    assert(before@ =~= self@.insert(k@, v));
                }
                Some((k, v))
            },
            _ => None,
        }
    }

    /// Takes a key out and gives its value.
    pub fn take(&mut self, key: &str) -> (r: Option<V>)
        ensures
            final(self)@ == old(self)@.remove(key@),
            match r {
                Some(v) => old(self)@.dom().contains(key@) && v == old(self)@[key@],
                None => !old(self)@.dom().contains(key@),
            },
            forall|k: Seq<char>|
                final(self).key_order().contains(k) ==> old(self).key_order().contains(k),
    {
        let at = self.position(key);
        match at {
            Some(i) => self.take_at(i, key),
            None => {
                proof {
                    assert(self@ =~= self@.remove(key@));
                }
                None
            },
        }
    }

    fn take_at(&mut self, i: usize, key: &str) -> (r: Option<V>)
        requires
            i < old(self).keys@.len(),
            old(self).keys@[i as int]@ == key@,
        ensures
            r is Some,
            old(self)@.dom().contains(key@),
            r->0 == old(self)@[key@],
            final(self)@ == old(self)@.remove(key@),
            forall|k: Seq<char>|
                final(self).key_order().contains(k) ==> old(self).key_order().contains(k),
    {
        proof {
            use_type_invariant(&*self);
        }
        let mut taken = TextMap::new();
        std::mem::swap(self, &mut taken);
        let ghost before = taken;
        let TextMap { mut keys, mut values } = taken;
        let ghost t0 = texts(keys@);
        let ghost v0 = values@;
        let _gone = keys.remove(i);
        let value = values.remove(i);
        proof {
            let t1 = texts(keys@);
            assert(t1 =~= t0.remove(i as int));
            assert forall|a: int, b: int| 0 <= a < t1.len() && 0 <= b < t1.len() && a
                != b implies t1[a] != t1[b] by {
                let x = if a < i { a } else { a + 1 };
                let y = if b < i { b } else { b + 1 };
                assert(t1[a] == t0[x] && t1[b] == t0[y]);
            }
            assert(t0[i as int] == key@);
            assert(t0.contains(key@));
            assert(t0.index_of(key@) == i as int);
            assert forall|k: Seq<char>| t1.contains(k) <==> t0.contains(k) && k != key@ by {
                if t1.contains(k) {
                    let a = t1.index_of(k);
                    let x = if a < i { a } else { a + 1 };
                    assert(t0[x] == k);
                }
                if t0.contains(k) && k != key@ {
                    let x = t0.index_of(k);
                    let a = if x < i { x } else { x - 1 };
                    assert(t1[a] == k);
                }
            }
            assert forall|k: Seq<char>| t1.contains(k) implies values@[t1.index_of(k)]
                == v0[t0.index_of(k)] by {
                let a = t1.index_of(k);
                let x = if a < i { a } else { a + 1 };
                assert(t0[x] == k);
                assert(t0.index_of(k) == x);
            }
        }
        *self = TextMap { keys, values };
        proof {
            assert(self@ =~= before@.remove(key@));
        }
        Some(value)
    }

    /// Takes a key and its value out.
    pub fn remove(&mut self, key: &str)
        ensures
            final(self)@ == old(self)@.remove(key@),
            forall|k: Seq<char>|
                final(self).key_order().contains(k) ==> old(self).key_order().contains(k),
    {
        let _value = self.take(key);
    }
}

/// A copy of a map of texts.
pub fn clone_text_map(m: &TextMap<String>) -> (r: TextMap<String>)
    ensures
        text_values(r@) == text_values(m@),
        r.key_order() == m.key_order(),
{
    proof {
        use_type_invariant(m);
    }
    let keys = clone_strings(m.keys.as_slice());
    let values = clone_strings(m.values.as_slice());
    let r = TextMap { keys, values };
    proof {
        assert forall|k: Seq<char>| text_values(m@).dom().contains(k) implies text_values(r@)[k]
            == text_values(m@)[k] by {
            let i = texts(m.keys@).index_of(k);
            assert(texts(m.values@)[i] == m.values@[i]@);
            assert(texts(r.values@)[i] == r.values@[i]@);
        }
        assert(text_values(r@) =~= text_values(m@));
    }
    r
}

/// A copy of a map of texts, where there is one.
pub fn clone_text_map_option(m: &Option<TextMap<String>>) -> (r: Option<TextMap<String>>)
    ensures
        opt_texts_map(r) == opt_texts_map(*m),
{
    match m {
        Some(t) => Some(clone_text_map(t)),
        None => None,
    }
}

/// The texts held by a map of strings, where there is one.
pub open spec fn opt_texts_map(m: Option<TextMap<String>>) -> Option<Map<Seq<char>, Seq<char>>> {
    match m {
        Some(t) => Some(text_values(t@)),
        None => None,
    }
}

} // verus!
