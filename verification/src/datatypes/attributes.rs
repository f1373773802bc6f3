//! Attribute maps: attribute keys to attribute values, keys unique, order
//! irrelevant.
//!
//! The contracts speak of the `Map` an attribute map denotes.  Handing the
//! contents back to the host is a purely translational fan-out: it may run
//! in parallel but never reorders the entries it emits.

use rayon::iter::{IndexedParallelIterator, IntoParallelRefIterator, ParallelIterator};
use vstd::prelude::*;

use crate::assoc::{
    assoc_map, distinct_keys, lemma_assoc_map_dom, lemma_assoc_map_index, lemma_assoc_map_len,
    lemma_assoc_map_push, lemma_assoc_map_update,
};
use crate::datatypes::key::{host_of_key, AttributeKey, AttributeKeyView};
use crate::datatypes::value::{host_of_value, AttributeValue, AttributeValueView, HostObject};

verus! {

/// A mapping from attribute keys to attribute values.
pub struct Attributes {
    entries: Vec<(AttributeKey, AttributeValue)>,
}

impl Attributes {
    /// The entries' mathematical values, in storage order.
    pub closed spec fn kv_seq(&self) -> Seq<(AttributeKeyView, AttributeValueView)> {
        Seq::new(self.entries@.len(), |i: int| (self.entries@[i].0@, self.entries@[i].1@))
    }

    /// Well-formed: no key occurs twice.
    pub open spec fn wf(&self) -> bool {
        distinct_keys(self.kv_seq())
    }

    /// An empty attribute map.
    pub fn new() -> (r: Self)
        ensures
            r.wf(),
            r@ == Map::<AttributeKeyView, AttributeValueView>::empty(),
            r.kv_seq().len() == 0,
    {
        let r = Attributes { entries: Vec::new() };
        proof {
            assert(r.kv_seq() =~= Seq::empty());
        }
        r
    }

    /// Binds a key to a value, replacing any previous binding.
    pub fn insert(&mut self, key: AttributeKey, value: AttributeValue)
        requires
            old(self).wf(),
        ensures
            final(self).wf(),
            final(self)@ == old(self)@.insert(key@, value@),
    {
        let ghost old_kv = self.kv_seq();
        let mut i: usize = 0;
        while i < self.entries.len()
            invariant
                self == old(self),
                self.wf(),
                old_kv == self.kv_seq(),
                i <= self.entries@.len(),
                forall|j: int| 0 <= j < i ==> self.kv_seq()[j].0 != key@,
            decreases self.entries@.len() - i,
        {
            if self.entries[i].0.key_eq(&key) {
                self.entries.set(i, (key, value));
                proof {
                    assert(self.kv_seq() =~= old_kv.update(i as int, (key@, value@)));
                    lemma_assoc_map_update(old_kv, i as int, (key@, value@));
                }
                return ;
            }
            i += 1;
        }
        self.entries.push((key, value));
        proof {
            assert(self.kv_seq() =~= old_kv.push((key@, value@)));
            lemma_assoc_map_push(old_kv, (key@, value@));
        }
    }

    /// Looks a key up.
    pub fn get(&self, key: &AttributeKey) -> (r: Option<&AttributeValue>)
        requires
            self.wf(),
        ensures
            match r {
                Some(v) => self@.contains_key(key@) && v@ == self@[key@],
                None => !self@.contains_key(key@),
            },
    {
        let mut i: usize = 0;
        while i < self.entries.len()
            invariant
                self.wf(),
                i <= self.entries@.len(),
                forall|j: int| 0 <= j < i ==> self.kv_seq()[j].0 != key@,
            decreases self.entries@.len() - i,
        {
            if self.entries[i].0.key_eq(key) {
                proof {
                    lemma_assoc_map_index(self.kv_seq(), i as int);
                }
                return Some(&self.entries[i].1);
            }
            i += 1;
        }
        proof {
            lemma_assoc_map_dom(self.kv_seq());
        }
        None
    }

    /// How many keys are bound.
    pub fn len(&self) -> (n: usize)
        requires
            self.wf(),
        ensures
            n == self@.len(),
    {
        proof {
            lemma_assoc_map_len(self.kv_seq());
        }
        self.entries.len()
    }

    /// Translational fan-out: the contents as host objects, each key as its
    /// holder instance and each value as its foreign representation, in
    /// entry order.
    pub fn to_host_pairs(&self) -> (r: Vec<(HostObject, HostObject)>)
        ensures
            r@.len() == self.kv_seq().len(),
            forall|i: int|
                0 <= i < r@.len() ==> (#[trigger] r@[i]).0@ == host_of_key(self.kv_seq()[i].0)
                    && r@[i].1@ == host_of_value(self.kv_seq()[i].1),
    {
        par_pairs_to_host(&self.entries)
    }
}

impl View for Attributes {
    type V = Map<AttributeKeyView, AttributeValueView>;

    open spec fn view(&self) -> Map<AttributeKeyView, AttributeValueView> {
        assoc_map(self.kv_seq())
    }
}

impl Clone for Attributes {
    /// A fresh, independent copy with the same contents.
    fn clone(&self) -> (res: Self)
        ensures
            res.kv_seq() == self.kv_seq(),
            res@ == self@,
            self.wf() ==> res.wf(),
    {
        let mut entries: Vec<(AttributeKey, AttributeValue)> = Vec::new();
        let mut i: usize = 0;
        while i < self.entries.len()
            invariant
                i <= self.entries@.len(),
                entries@.len() == i,
                forall|j: int| 0 <= j < i ==> entries@[j] == self.entries@[j],
            decreases self.entries@.len() - i,
        {
            let p = (self.entries[i].0.clone(), self.entries[i].1.clone());
            entries.push(p);
            i += 1;
        }
        let res = Attributes { entries };
        proof {
            assert(res.kv_seq() =~= self.kv_seq());
        }
        res
    }
}

/// Relies on rayon's indexed parallel iterators: `map` applies the given
/// closure to each element and `collect` into a vector preserves the input
/// order.  The closure only calls verified conversions of this crate.
#[verifier::external_body]
fn par_pairs_to_host(entries: &Vec<(AttributeKey, AttributeValue)>) -> (r: Vec<
    (HostObject, HostObject),
>)
    ensures
        r@.len() == entries@.len(),
        forall|i: int|
            0 <= i < r@.len() ==> (#[trigger] r@[i]).0@ == host_of_key(entries@[i].0@)
                && r@[i].1@ == host_of_value(entries@[i].1@),
{
    entries
        .par_iter()
        .map(|p: &(AttributeKey, AttributeValue)| (p.0.clone().into_host(), p.1.clone().into_host()))
        .collect()
}

} // verus!
