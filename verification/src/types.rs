use std::collections::HashMap;
use std::hash::Hash;

use vstd::prelude::*;
use vstd::std_specs::hash::obeys_key_model;

verus! {

/// A collection whose items a template can look up by key.
pub trait ItemGetter<Key, Value> {
    /// The item stored under `key`.
    spec fn item(&self, key: Key) -> Option<Value>;

    /// Whether lookups follow `item`.
    spec fn models_items(&self) -> bool;

    /// The item stored under `key`, if any.
    fn get_value(&self, key: &Key) -> (r: Option<&Value>)
        ensures
            self.models_items() ==> {
                &&& r matches Some(v) ==> self.item(*key) == Some(*v)
                &&& r is None ==> self.item(*key) is None
            };

    /// The item stored under `key` as a string, or the empty string where
    /// there is none.
    fn get_string(&self, key: &Key) -> (r: String)
        where
            Value: std::fmt::Display,
        ensures
            self.models_items() ==> {
                &&& self.item(*key) is None ==> r@ == Seq::<char>::empty()
                &&& self.item(*key) matches Some(v)
                    ==> vstd::string::to_string_from_display_ensures::<Value>(&v, r)
            },
    {
        match self.get_value(key) {
            Some(s) => s.to_string(),
            None => String::new(),
        }
    }
}

impl<Key: Hash + Eq, Value> ItemGetter<Key, Value> for HashMap<Key, Value> {
    open spec fn item(&self, key: Key) -> Option<Value> {
        if self@.contains_key(key) {
            Some(self@[key])
        } else {
            None
        }
    }

    open spec fn models_items(&self) -> bool {
        obeys_key_model::<Key>()
    }

    fn get_value(&self, key: &Key) -> (r: Option<&Value>) {
        proof {
            broadcast use vstd::std_specs::hash::group_hash_axioms;
        }
        self.get(key)
    }
}

impl<Value> ItemGetter<usize, Value> for Vec<Value> {
    open spec fn item(&self, key: usize) -> Option<Value> {
        if key < self@.len() {
            Some(self@[key as int])
        } else {
            None
        }
    }

    open spec fn models_items(&self) -> bool {
        true
    }

    fn get_value(&self, key: &usize) -> (r: Option<&Value>) {
        if *key < self.len() {
            Some(&self[*key])
        } else {
            None
        }
    }
}

} // verus!
