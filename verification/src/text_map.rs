//! A map keyed by text that keeps the order of its keys.

use vstd::prelude::*;

verus! {

/// A map from texts to values that remembers the order in which its keys
/// were first inserted.
pub struct TextMap<V: DeepView> {
    keys: Vec<String>,
    values: Vec<V>,
}

impl<V: DeepView> View for TextMap<V> {
    type V = Map<Seq<char>, V::V>;

    closed spec fn view(&self) -> Map<Seq<char>, V::V> {
        Map::new(
            |k: Seq<char>| self.keys.deep_view().contains(k),
            |k: Seq<char>| self.values@[self.keys.deep_view().index_of(k)].deep_view(),
        )
    }
}

impl<V: DeepView> TextMap<V> {
    #[verifier::type_invariant]
    spec fn well_formed(self) -> bool {
        &&& self.keys.len() == self.values.len()
        &&& self.keys.deep_view().no_duplicates()
    }

    /// The keys in the order in which they were first inserted.
    pub closed spec fn key_order(&self) -> Seq<Seq<char>> {
        self.keys.deep_view()
    }

    /// An empty map.
    pub fn new() -> (r: Self)
        ensures
            r@ == Map::<Seq<char>, V::V>::empty(),
            r.key_order() == Seq::<Seq<char>>::empty(),
    {
        let r = TextMap { keys: Vec::new(), values: Vec::new() };
        assert(r.keys.deep_view() =~= Seq::<Seq<char>>::empty());
        assert(r@ =~= Map::<Seq<char>, V::V>::empty());
        r
    }

    /// The place of `key` among the keys.
    fn position(&self, key: &str) -> (r: Option<usize>)
        ensures
            match r {
                Some(i) => i < self.keys.len() && self.keys.deep_view()[i as int] == key@
                    && self.keys.deep_view().index_of(key@) == i,
                None => !self.keys.deep_view().contains(key@),
            },
    {
        proof {
            use_type_invariant(self);
        }
        let ghost views = self.keys.deep_view();
        let mut i: usize = 0;
        while i < self.keys.len()
            invariant
                i <= self.keys.len(),
                views == self.keys.deep_view(),
                views.no_duplicates(),
                forall|j: int| 0 <= j < i ==> views[j] != key@,
            decreases self.keys.len() - i,
        {
            assert(views[i as int] == self.keys[i as int]@);
            if chars_equal(self.keys[i].as_str(), key) {
                assert(views.contains(key@));
                let ghost found = views.index_of(key@);
                assert(views[found] == key@);
                return Some(i);
            }
            i += 1;
        }
        None
    }

    /// The number of keys. No key comes twice in the order, and the keys in
    /// the order are the keys of the map.
    pub fn len(&self) -> (r: usize)
        ensures
            r == self.key_order().len(),
            r == self@.len(),
            self@.dom().finite(),
            self.key_order().no_duplicates(),
            self.key_order().to_set() == self@.dom(),
    {
        proof {
            use_type_invariant(self);
            let views = self.keys.deep_view();
            assert(self@.dom() =~= views.to_set());
            views.unique_seq_to_set();
            vstd::seq_lib::seq_to_set_is_finite(views);
        }
        self.keys.len()
    }

    /// Whether a value stands under `key`.
    pub fn contains_key(&self, key: &str) -> (r: bool)
        ensures
            r == self@.contains_key(key@),
    {
        self.position(key).is_some()
    }

    /// The value under `key`.
    pub fn get(&self, key: &str) -> (r: Option<&V>)
        ensures
            match r {
                Some(value) => self@.contains_key(key@) && value.deep_view() == self@[key@],
                None => !self@.contains_key(key@),
            },
    {
        proof {
            use_type_invariant(self);
        }
        match self.position(key) {
            Some(i) => Some(&self.values[i]),
            None => None,
        }
    }

    /// The key at place `i` in the order of insertion.
    pub fn key_at(&self, i: usize) -> (r: &String)
        requires
            i < self.key_order().len(),
        ensures
            r@ == self.key_order()[i as int],
            self@.contains_key(r@),
    {
        proof {
            use_type_invariant(self);
            assert(self.keys.deep_view()[i as int] == self.keys[i as int]@);
            assert(self.keys.deep_view().contains(self.keys[i as int]@));
        }
        &self.keys[i]
    }

    /// The value under the key at place `i` in the order of insertion.
    pub fn value_at(&self, i: usize) -> (r: &V)
        requires
            i < self.key_order().len(),
        ensures
            self@.contains_key(self.key_order()[i as int]),
            r.deep_view() == self@[self.key_order()[i as int]],
    {
        proof {
            use_type_invariant(self);
            let views = self.keys.deep_view();
            assert(views.contains(views[i as int]));
            let found = views.index_of(views[i as int]);
            assert(views[found] == views[i as int]);
        }
        &self.values[i]
    }

    /// The map with `value` under `key`, in place of what stood there. A new
    /// key comes last in the order; one that was there keeps its place.
    pub fn insert(self, key: String, value: V) -> (r: Self)
        ensures
            r@ == self@.insert(key@, value.deep_view()),
            r.key_order() == if self@.contains_key(key@) {
                self.key_order()
            } else {
                self.key_order().push(key@)
            },
    {
        proof {
            use_type_invariant(&self);
        }
        let place = self.position(key.as_str());
        let ghost old_keys = self.keys.deep_view();
        let ghost old_values = self.values@;
        let ghost old_map = self@;
        let TextMap { mut keys, mut values } = self;
        match place {
            Some(i) => {
                values.set(i, value);
                let r = TextMap { keys, values };
                proof {
                    assert forall|k: Seq<char>| old_map.insert(key@, value.deep_view()).contains_key(
                        k,
                    ) implies #[trigger] r@[k] == old_map.insert(key@, value.deep_view())[k] by {
                        let at = old_keys.index_of(k);
                        if k != key@ {
                            assert(old_keys[at] == k);
                        }
                    }
                    assert(r@ =~= old_map.insert(key@, value.deep_view()));
                }
                r
            },
            None => {
                keys.push(key);
                values.push(value);
                proof {
                    assert(keys.deep_view() =~= old_keys.push(key@));
                }
                let r = TextMap { keys, values };
                proof {
                    let new_keys = old_keys.push(key@);
                    assert forall|k: Seq<char>| new_keys.contains(k) <==> (old_keys.contains(k)
                        || k == key@) by {
                        if old_keys.contains(k) {
                            let at = old_keys.index_of(k);
                            assert(old_keys[at] == k);
                            assert(new_keys[at] == k);
                        }
                        if k == key@ {
                            assert(new_keys[new_keys.len() - 1] == k);
                        }
                        if new_keys.contains(k) {
                            let at = new_keys.index_of(k);
                            assert(new_keys[at] == k);
                            if at < old_keys.len() {
                                assert(old_keys[at] == k);
                            }
                        }
                    }
                    assert forall|k: Seq<char>| new_keys.contains(k) implies #[trigger] r@[k]
                        == old_map.insert(key@, value.deep_view())[k] by {
                        let at = new_keys.index_of(k);
                        assert(new_keys[at] == k);
                        if k != key@ {
                            let was = old_keys.index_of(k);
                            assert(old_keys[was] == k);
                            assert(new_keys[was] == k);
                        } else {
                            assert(new_keys[new_keys.len() - 1] == k);
                        }
                    }
                    assert(r@ =~= old_map.insert(key@, value.deep_view()));
                }
                r
            },
        }
    }
}

/// Whether two texts hold the same characters.
pub fn chars_equal(a: &str, b: &str) -> (r: bool)
    ensures
        r == (a@ == b@),
{
    let left = a.to_owned();
    let right = b.to_owned();
    left == right
}

} // verus!
