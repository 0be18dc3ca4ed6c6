//! A table from string keys to values, kept in a `HashMap<String, _>`.
use vstd::prelude::*;

use vstd::hash_map::StringHashMap;

verus! {

/// String-keyed values; a newer value for a key replaces the older one.
#[verifier::reject_recursive_types(T)]
pub struct KeyedTable<T> {
    map: StringHashMap<T>,
}

impl<T> KeyedTable<T> {
    /// The value stored under `key`.
    pub closed spec fn get_spec(self, key: Seq<char>) -> Option<T> {
        if self.map@.contains_key(key) {
            Some(self.map@[key])
        } else {
            None
        }
    }

    /// An empty table.
    pub fn new() -> (table: Self)
        ensures
            forall|k: Seq<char>| #[trigger] table.get_spec(k) is None,
    {
        KeyedTable { map: StringHashMap::new() }
    }

    /// The value stored under `key`, if any.
    pub fn get(&self, key: &str) -> (value: Option<&T>)
        ensures
            match value {
                Some(v) => self.get_spec(key@) == Some(*v),
                None => self.get_spec(key@) is None,
            },
    {
        self.map.get(key)
    }

    /// Stores `value` under `key`, replacing any older value.
    pub fn insert(&mut self, key: String, value: T)
        ensures
            forall|q: Seq<char>|
                #[trigger] final(self).get_spec(q) == if q == key@ {
                    Some(value)
                } else {
                    old(self).get_spec(q)
                },
    {
        self.map.insert(key, value);
    }
}

} // verus!
