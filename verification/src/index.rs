//! Which objects a trace holds.

use vstd::prelude::*;

use crate::k8s::{GVK, OwnerKey};
use crate::owner_map::{owner_keys, OwnerMap};

verus! {

/// The objects that occur in a trace, each by its type and its namespaced name, with the hash of its
/// specification.
#[derive(Debug)]
pub struct TraceIndex {
    objects: OwnerMap<u64>,
}

impl View for TraceIndex {
    type V = Map<OwnerKey, u64>;

    closed spec fn view(&self) -> Map<OwnerKey, u64> {
        self.objects@
    }
}

impl TraceIndex {
    /// Whether the object is in the index.
    pub fn contains(&self, gvk: &GVK, ns_name: &str) -> (res: bool)
        ensures
            res == self@.contains_key((gvk@, ns_name@)),
    {
        self.objects.contains(gvk, ns_name)
    }

    /// The hash of the object's specification.
    pub fn get(&self, gvk: &GVK, ns_name: &str) -> (res: Option<u64>)
        ensures
            res == (if self@.contains_key((gvk@, ns_name@)) {
                Some(self@[(gvk@, ns_name@)])
            } else {
                None
            }),
    {
        match self.objects.get(gvk, ns_name) {
            Some(hash) => Some(*hash),
            None => None,
        }
    }

    /// The objects in the index, each once.
    pub fn keys(&self) -> (res: Vec<(GVK, String)>)
        ensures
            owner_keys(res@).no_duplicates(),
            forall|key: OwnerKey| #[trigger]
                owner_keys(res@).contains(key) <==> self@.contains_key(key),
    {
        self.objects.keys()
    }

    /// Puts the object into the index, with this hash in place of any earlier one.
    pub fn insert(&mut self, gvk: GVK, ns_name: String, hash: u64)
        ensures
            final(self)@ == old(self)@.insert((gvk@, ns_name@), hash),
    {
        self.objects.insert(gvk, ns_name, hash);
    }
}

impl Default for TraceIndex {
    fn default() -> (res: TraceIndex)
        ensures
            res@ == Map::<OwnerKey, u64>::empty(),
    {
        TraceIndex { objects: OwnerMap::new() }
    }
}

impl Clone for TraceIndex {
    fn clone(&self) -> (res: TraceIndex)
        ensures
            res@ == self@,
    {
        let res = TraceIndex { objects: self.objects.clone() };
        assert(res@ =~= self@);
        res
    }
}

} // verus!
