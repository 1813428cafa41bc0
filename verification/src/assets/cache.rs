//! A type-erased container for loaded assets of any type.

use std::any::TypeId;
use std::collections::HashMap;
use vstd::prelude::*;

use super::handle::AssetId;
use crate::erased::{type_key, ErasedValue, TypeMap};

verus! {

/// A cached asset, with the number of the insertion that stored it.
struct Stored {
    value: ErasedValue,
    stamp: Ghost<nat>,
}

/// A cache of loaded assets, grouped by asset type and keyed by asset id.
pub struct AssetCache {
    /// Type -> (asset id -> asset).
    storages: TypeMap<HashMap<u64, Stored>>,
    /// How many insertions the cache has had.
    inserted: Ghost<nat>,
}

impl View for AssetCache {
    type V = Map<TypeId, Map<u64, ErasedValue>>;

    /// For each asset type held, the assets of that type by id.
    closed spec fn view(&self) -> Map<TypeId, Map<u64, ErasedValue>> {
        self.storages@.map_values(|m: HashMap<u64, Stored>| stored_values(m@))
    }
}

/// The assets held by a map of stored entries, by id.
spec fn stored_values(m: Map<u64, Stored>) -> Map<u64, ErasedValue> {
    m.map_values(|s: Stored| s.value)
}

/// The assets of type key `k` in a cache view; empty when none were stored.
pub open spec fn assets_of(
    cache: Map<TypeId, Map<u64, ErasedValue>>,
    k: TypeId,
) -> Map<u64, ErasedValue> {
    if cache.contains_key(k) {
        cache[k]
    } else {
        Map::empty()
    }
}

/// `HashMap::get_mut` on a map keyed by `u64`: a mutable reference to the
/// value of `key` when there is one. As std documents it, writing through the
/// reference changes that value only, and `None` leaves the map as it was.
#[verifier::external_body]
fn hash_map_get_mut<V>(m: &mut HashMap<u64, V>, key: u64) -> (r: Option<&mut V>)
    ensures
        match r {
            Some(v) => {
                &&& old(m)@.contains_key(key)
                &&& *v == old(m)@[key]
                &&& final(m)@ == old(m)@.insert(key, *final(v))
            },
            None => {
                &&& !old(m)@.contains_key(key)
                &&& final(m)@ == old(m)@
            },
        },
{
    m.get_mut(&key)
}

/// How an insertion under `id` changes a cache: for the type key `k` of the
/// asset, the slot `(k, id)` then holds what this insertion stored (its stamp
/// is the number of insertions made before it), and every other slot keeps
/// what it held.
pub open spec fn stored_by_insert(before: AssetCache, after: AssetCache, k: TypeId, id: u64) -> bool {
    &&& after@.contains_key(k)
    &&& after@[k].contains_key(id)
    &&& after.stamp(k, id) == before.insertions()
    &&& after.insertions() == before.insertions() + 1
    &&& forall|k2: TypeId, id2: u64|
        (k2 != k || id2 != id) && before.holds(k2, id2) ==> #[trigger] after.stamp(k2, id2)
            == before.stamp(k2, id2)
}

/// An insertion replaces what its slot held: the asset it stores is newer
/// than every asset the cache held before, the one it replaces included.
pub proof fn lemma_insert_replaces(before: AssetCache, after: AssetCache, k: TypeId, id: u64)
    requires
        before.wf(),
        stored_by_insert(before, after, k, id),
    ensures
        forall|k2: TypeId, id2: u64|
            #[trigger] before.holds(k2, id2) ==> before.stamp(k2, id2) < after.stamp(k, id),
        before.holds(k, id) ==> before.stamp(k, id) != after.stamp(k, id),
{
}

impl AssetCache {
    /// The cache's invariant: the type map is well formed, and every stored
    /// asset was stored by one of the insertions made so far.
    pub closed spec fn wf(&self) -> bool {
        &&& self.storages.wf()
        &&& forall|k: TypeId, id: u64|
            self.holds(k, id) ==> (#[trigger] self.storages@[k]@[id]).stamp@ < self.inserted@
    }

    /// Whether an asset is stored under type key `k` and id `id`.
    pub closed spec fn holds(&self, k: TypeId, id: u64) -> bool {
        self.storages@.contains_key(k) && self.storages@[k]@.contains_key(id)
    }

    /// How many insertions the cache has had.
    pub closed spec fn insertions(&self) -> nat {
        self.inserted@
    }

    /// The number of the insertion that stored the asset under `(k, id)`.
    pub closed spec fn stamp(&self, k: TypeId, id: u64) -> nat {
        self.storages@[k]@[id].stamp@
    }

    /// Setting the entries of type key `k` to `m` sets that type's assets to
    /// the values of `m`.
    proof fn lemma_view_set(before: Self, after: Self, k: TypeId, m: HashMap<u64, Stored>)
        requires
            after.storages@ == before.storages@.insert(k, m),
        ensures
            after@ == before@.insert(k, stored_values(m@)),
    {
        assert(after@ =~= before@.insert(k, stored_values(m@)));
    }

    proof fn lemma_holds(&self, k: TypeId, id: u64)
        ensures
            self.holds(k, id) == assets_of(self@, k).contains_key(id),
            self.holds(k, id) ==> assets_of(self@, k)[id] == self.storages@[k]@[id].value,
    {
    }

    /// Create a new, empty cache.
    pub fn new() -> (c: Self)
        ensures
            c.wf(),
            c@ == Map::<TypeId, Map<u64, ErasedValue>>::empty(),
            c.insertions() == 0,
    {
        let c = AssetCache { storages: TypeMap::new(), inserted: Ghost(0) };
        assert(c@ =~= Map::<TypeId, Map<u64, ErasedValue>>::empty());
        c
    }

    /// Insert an asset under `id`, replacing an asset of the same type and id.
    ///
    /// Exactly one (type, id) slot is set, to the asset given; all other
    /// assets are untouched.
    pub fn insert<T: 'static>(&mut self, id: AssetId, asset: T)
        requires
            old(self).wf(),
        ensures
            final(self).wf(),
            exists|k: TypeId, v: ErasedValue|
                #[trigger] final(self)@ == old(self)@.insert(
                    k,
                    assets_of(old(self)@, k).insert(id.0, v),
                ),
            exists|k: TypeId| #[trigger] stored_by_insert(*old(self), *final(self), k, id.0),
    {
        let key = type_key::<T>();
        let value = ErasedValue::new(asset);
        let stored = Stored { value, stamp: Ghost(self.inserted@) };
        match self.storages.get_mut(&key) {
            Some(storage) => {
                storage.insert(id.0, stored);
            },
            None => {
                let mut storage: HashMap<u64, Stored> = HashMap::new();
                storage.insert(id.0, stored);
                self.storages.insert(key, storage);
            },
        }
        self.inserted = Ghost(self.inserted@ + 1);
        proof {
            Self::lemma_view_set(*old(self), *self, key, self.storages@[key]);
            assert(stored_values(self.storages@[key]@) =~= assets_of(old(self)@, key).insert(id.0, value));
            assert(self@ =~= old(self)@.insert(key, assets_of(old(self)@, key).insert(id.0, value)));
            assert(stored_by_insert(*old(self), *self, key, id.0));
        }
    }

    /// The asset of type `T` stored under `id`.
    pub fn get<T: 'static>(&self, id: AssetId) -> (r: Option<&T>)
        requires
            self.wf(),
        ensures
            r is Some ==> exists|k: TypeId| #[trigger] assets_of(self@, k).contains_key(id.0),
    {
        let key = type_key::<T>();
        match self.storages.get(&key) {
            Some(storage) => match storage.get(&id.0) {
                Some(stored) => {
                    proof {
                        self.lemma_holds(key, id.0);
                    }
                    stored.value.downcast_ref::<T>()
                },
                None => None,
            },
            None => None,
        }
    }

    /// Mutable access to the asset of type `T` stored under `id` (used for
    /// hot-reloading). Which assets are stored does not change.
    pub fn get_mut<T: 'static>(&mut self, id: AssetId) -> (r: Option<&mut T>)
        requires
            old(self).wf(),
        ensures
            final(self).wf(),
            final(self)@.dom() == old(self)@.dom(),
            forall|k: TypeId| #[trigger]
                assets_of(final(self)@, k).dom() == assets_of(old(self)@, k).dom(),
            r is Some ==> exists|k: TypeId| #[trigger] assets_of(old(self)@, k).contains_key(id.0),
    {
        let key = type_key::<T>();
        let r = match self.storages.get_mut(&key) {
            Some(storage) => {
                match hash_map_get_mut(storage, id.0) {
                    Some(stored) => {
                        proof {
                            old(self).lemma_holds(key, id.0);
                        }
                        stored.value.downcast_mut::<T>()
                    },
                    None => None,
                }
            },
            None => None,
        };
        r
    }

    /// Remove the asset of type `T` stored under `id` and return it.
    ///
    /// At most one (type, id) slot is emptied; all other assets are untouched.
    pub fn remove<T: 'static>(&mut self, id: AssetId) -> (r: Option<T>)
        requires
            old(self).wf(),
        ensures
            final(self).wf(),
            exists|k: TypeId|
                {
                    &&& (#[trigger] old(self)@.contains_key(k) ==> final(self)@ == old(self)@.insert(
                        k,
                        old(self)@[k].remove(id.0),
                    ))
                    &&& (!old(self)@.contains_key(k) ==> final(self)@ == old(self)@)
                    &&& (r is Some ==> assets_of(old(self)@, k).contains_key(id.0))
                },
    {
        let key = type_key::<T>();
        let removed = match self.storages.get_mut(&key) {
            Some(storage) => storage.remove(&id.0),
            None => None,
        };
        proof {
            if old(self)@.contains_key(key) {
                Self::lemma_view_set(*old(self), *self, key, self.storages@[key]);
                assert(stored_values(self.storages@[key]@) =~= old(self)@[key].remove(id.0));
                assert(self@ =~= old(self)@.insert(key, old(self)@[key].remove(id.0)));
            } else {
                assert(self@ =~= old(self)@);
            }
            assert(removed is Some ==> assets_of(old(self)@, key).contains_key(id.0));
        }
        match removed {
            Some(stored) => stored.value.downcast::<T>(),
            None => None,
        }
    }

    /// Remove all assets of type `T`; assets of other types are untouched.
    pub fn clear<T: 'static>(&mut self)
        requires
            old(self).wf(),
        ensures
            final(self).wf(),
            exists|k: TypeId|
                {
                    &&& (#[trigger] old(self)@.contains_key(k) ==> final(self)@ == old(self)@.insert(
                        k,
                        Map::empty(),
                    ))
                    &&& (!old(self)@.contains_key(k) ==> final(self)@ == old(self)@)
                },
    {
        let key = type_key::<T>();
        match self.storages.get_mut(&key) {
            Some(storage) => {
                storage.clear();
            },
            None => {},
        }
        proof {
            if old(self)@.contains_key(key) {
                Self::lemma_view_set(*old(self), *self, key, self.storages@[key]);
                assert(stored_values(self.storages@[key]@) =~= Map::empty());
                assert(self@ =~= old(self)@.insert(key, Map::empty()));
            } else {
                assert(self@ =~= old(self)@);
            }
        }
    }
}

} // verus!
