//! A lazily-initialised lookup table keyed by runtime-type identity.
//!
//! The table backs the conversion dispatch caches.  It is append-only for
//! the life of the process: entries are filled at most once per key and are
//! never evicted.  The host's single execution lock serialises every
//! boundary-crossing call, which is what makes the fill-once mutation safe;
//! the owner of the table passes it in explicitly under that lock.

use std::collections::HashMap;
use vstd::prelude::*;

verus! {

broadcast use vstd::std_specs::hash::group_hash_axioms;

/// Map from a runtime-type identity to a cached value, allocated on first
/// use.
pub struct GILHashMap<V> {
    inner: Option<HashMap<u64, V>>,
}

impl<V> View for GILHashMap<V> {
    type V = Map<u64, V>;

    closed spec fn view(&self) -> Map<u64, V> {
        match self.inner {
            Option::None => Map::empty(),
            Option::Some(m) => m@,
        }
    }
}

impl<V> GILHashMap<V> {
    /// An empty table; the backing storage is allocated lazily.
    pub fn new() -> (s: Self)
        ensures
            s@ == Map::<u64, V>::empty(),
    {
        GILHashMap { inner: None }
    }

    /// Looks a key up without changing the table.
    pub fn get(&self, key: u64) -> (r: Option<&V>)
        ensures
            match r {
                Some(v) => self@.contains_key(key) && *v == self@[key],
                None => !self@.contains_key(key),
            },
    {
        match &self.inner {
            Option::None => None,
            Option::Some(m) => m.get(&key),
        }
    }

    /// Fills one entry; existing entries keep their values unless the same
    /// key is written again.
    pub fn insert(&mut self, key: u64, value: V)
        ensures
            final(self)@ == old(self)@.insert(key, value),
    {
        match &mut self.inner {
            Option::Some(m) => {
                m.insert(key, value);
            }
            Option::None => {
                let mut m: HashMap<u64, V> = HashMap::new();
                m.insert(key, value);
                self.inner = Some(m);
            }
        }
    }

    /// How many distinct keys have been filled so far.
    pub fn len(&self) -> (n: usize)
        ensures
            n == self@.len(),
    {
        match &self.inner {
            Option::None => {
                proof {
                    assert(Map::<u64, V>::empty().dom() =~= Set::empty());
                }
                0
            }
            Option::Some(m) => m.len(),
        }
    }
}

} // verus!
