//! A map keyed by an owner's type and namespaced name.

use vstd::prelude::*;

use crate::k8s::{GVK, OwnerKey};

verus! {

#[derive(Debug)]
struct Entry<T> {
    gvk: GVK,
    ns_name: String,
    value: T,
}

impl<T> Entry<T> {
    spec fn key(self) -> OwnerKey {
        (self.gvk@, self.ns_name@)
    }
}

/// A map from the type and the namespaced name of an object to a value.
#[derive(Debug)]
pub struct OwnerMap<T> {
    entries: Vec<Entry<T>>,
}

/// No key occurs twice.
spec fn distinct<T>(entries: Seq<Entry<T>>) -> bool {
    forall|i: int, j: int|
        0 <= i < j < entries.len() ==> #[trigger] entries[i].key() != #[trigger] entries[j].key()
}

/// Some entry has the key.
spec fn holds<T>(entries: Seq<Entry<T>>, key: OwnerKey) -> bool {
    exists|i: int| 0 <= i < entries.len() && #[trigger] entries[i].key() == key
}

/// The place of the entry with the key.
spec fn place<T>(entries: Seq<Entry<T>>, key: OwnerKey) -> int {
    choose|i: int| 0 <= i < entries.len() && #[trigger] entries[i].key() == key
}

spec fn contents<T>(entries: Seq<Entry<T>>) -> Map<OwnerKey, T> {
    Map::new(|key: OwnerKey| holds(entries, key), |key: OwnerKey| entries[place(entries, key)].value)
}

/// The objects that the pairs name.
pub open spec fn owner_keys(owners: Seq<(GVK, String)>) -> Seq<OwnerKey> {
    owners.map_values(|owner: (GVK, String)| (owner.0@, owner.1@))
}

impl<T> View for OwnerMap<T> {
    type V = Map<OwnerKey, T>;

    closed spec fn view(&self) -> Map<OwnerKey, T> {
        contents(self.entries@)
    }
}

impl<T> OwnerMap<T> {
    #[verifier::type_invariant]
    spec fn wf(self) -> bool {
        distinct(self.entries@)
    }

    /// The map that holds nothing.
    pub fn new() -> (res: OwnerMap<T>)
        ensures
            res@ == Map::<OwnerKey, T>::empty(),
    {
        let res = OwnerMap { entries: Vec::new() };
        assert(res@ =~= Map::<OwnerKey, T>::empty());
        res
    }

    fn find(&self, gvk: &GVK, ns_name: &str) -> (res: Option<usize>)
        ensures
            match res {
                Some(i) => i < self.entries.len() && self.entries[i as int].key() == (
                    gvk@,
                    ns_name@,
                ),
                None => !self@.contains_key((gvk@, ns_name@)),
            },
    {
        let name = ns_name.to_string();
        let mut i: usize = 0;
        while i < self.entries.len()
            invariant
                i <= self.entries.len(),
                name@ == ns_name@,
                forall|k: int| 0 <= k < i ==> #[trigger] self.entries[k].key() != (gvk@, ns_name@),
            decreases self.entries.len() - i,
        {
            let entry = &self.entries[i];
            if entry.gvk == *gvk && entry.ns_name == name {
                return Some(i);
            }
            i = i + 1;
        }
        None
    }

    /// Whether the map holds a value for the object.
    pub fn contains(&self, gvk: &GVK, ns_name: &str) -> (res: bool)
        ensures
            res == self@.contains_key((gvk@, ns_name@)),
    {
        let found = self.find(gvk, ns_name);
        match found {
            Some(_) => true,
            None => false,
        }
    }

    /// The value for the object.
    pub fn get(&self, gvk: &GVK, ns_name: &str) -> (res: Option<&T>)
        ensures
            res == (if self@.contains_key((gvk@, ns_name@)) {
                Some(&self@[(gvk@, ns_name@)])
            } else {
                None
            }),
    {
        proof {
            use_type_invariant(&*self);
        }
        let found = self.find(gvk, ns_name);
        match found {
            Some(i) => Some(&self.entries[i].value),
            None => None,
        }
    }

    /// The objects that the map holds a value for, each once.
    pub fn keys(&self) -> (res: Vec<(GVK, String)>)
        ensures
            owner_keys(res@).no_duplicates(),
            forall|key: OwnerKey| #[trigger]
                owner_keys(res@).contains(key) <==> self@.contains_key(key),
    {
        proof {
            use_type_invariant(&*self);
        }
        let mut res: Vec<(GVK, String)> = Vec::new();
        let mut i: usize = 0;
        while i < self.entries.len()
            invariant
                i <= self.entries.len(),
                res.len() == i,
                forall|k: int|
                    0 <= k < i ==> (#[trigger] owner_keys(res@)[k]) == self.entries[k].key(),
            decreases self.entries.len() - i,
        {
            let entry = &self.entries[i];
            let ghost before = res@;
            res.push((entry.gvk.clone(), entry.ns_name.clone()));
            assert(owner_keys(res@) =~= owner_keys(before).push(self.entries[i as int].key()));
            i = i + 1;
        }
        assert forall|key: OwnerKey| #[trigger]
            owner_keys(res@).contains(key) <==> self@.contains_key(key) by {
            if self@.contains_key(key) {
                assert(owner_keys(res@)[place(self.entries@, key)] == key);
            }
        }
        res
    }

    /// Puts the value for the object into the map, in place of any earlier one.
    pub fn insert(&mut self, gvk: GVK, ns_name: String, value: T)
        ensures
            final(self)@ == old(self)@.insert((gvk@, ns_name@), value),
    {
        proof {
            use_type_invariant(&*self);
        }
        let found = self.find(&gvk, ns_name.as_str());
        let ghost key = (gvk@, ns_name@);
        let ghost before = self.entries@;
        let mut entries: Vec<Entry<T>> = Vec::new();
        std::mem::swap(&mut entries, &mut self.entries);
        match found {
            Some(i) => {
                entries.set(i, Entry { gvk, ns_name, value });
                assert(entries@[i as int].key() == key);
            },
            None => {
                entries.push(Entry { gvk, ns_name, value });
                assert(entries@[before.len() as int].key() == key);
            },
        }
        assert(contents(entries@) =~= contents(before).insert(key, value)) by {
            assert forall|k: OwnerKey| holds(entries@, k) <==> (k == key || holds(before, k)) by {
                if holds(before, k) {
                    let j = place(before, k);
                    assert(entries@[j].key() == k);
                }
            }
            assert forall|k: OwnerKey| holds(entries@, k) implies contents(entries@)[k] == contents(
                before,
            ).insert(key, value)[k] by {
                let j = place(entries@, k);
                if k != key {
                    assert(before[j].key() == k);
                }
            }
        }
        self.entries = entries;
    }
}

impl<T> Default for OwnerMap<T> {
    fn default() -> (res: OwnerMap<T>)
        ensures
            res@ == Map::<OwnerKey, T>::empty(),
    {
        OwnerMap::new()
    }
}

impl<T: Clone> Clone for OwnerMap<T> {
    fn clone(&self) -> (res: OwnerMap<T>)
        ensures
            res@.dom() == self@.dom(),
            forall|key: OwnerKey| #[trigger]
                self@.contains_key(key) ==> cloned::<T>(self@[key], res@[key]),
    {
        proof {
            use_type_invariant(&*self);
        }
        let mut entries: Vec<Entry<T>> = Vec::new();
        let mut i: usize = 0;
        while i < self.entries.len()
            invariant
                i <= self.entries.len(),
                entries.len() == i,
                forall|k: int|
                    0 <= k < i ==> (#[trigger] entries[k]).key() == self.entries[k].key() && cloned::<
                        T,
                    >(self.entries[k].value, entries[k].value),
            decreases self.entries.len() - i,
        {
            let entry = &self.entries[i];
            entries.push(
                Entry {
                    gvk: entry.gvk.clone(),
                    ns_name: entry.ns_name.clone(),
                    value: entry.value.clone(),
                },
            );
            i = i + 1;
        }
        assert forall|j: int, k: int| 0 <= j < k < entries.len() implies #[trigger] entries[j].key()
            != #[trigger] entries[k].key() by {
            assert(self.entries[j].key() != self.entries[k].key());
        }
        assert forall|key: OwnerKey| holds(self.entries@, key) <==> holds(entries@, key) by {
            if holds(self.entries@, key) {
                assert(entries@[place(self.entries@, key)].key() == key);
            }
            if holds(entries@, key) {
                assert(self.entries@[place(entries@, key)].key() == key);
            }
        }
        let res = OwnerMap { entries };
        assert(res@.dom() =~= self@.dom());
        res
    }
}

/// The objects that pairs name are those of the pairs, each where it stands.
pub proof fn law_owners_are_named_by_both_parts(owners: Seq<(GVK, String)>)
    ensures
        owner_keys(owners).len() == owners.len(),
        forall|i: int|
            0 <= i < owners.len() ==> (#[trigger] owner_keys(owners)[i]).0 == owners[i].0@
                && owner_keys(owners)[i].1 == owners[i].1@,
{
}

} // verus!
