//! Sparse-set component storage.
//!
//! Components of one type are kept in a dense array, with a parallel array of
//! owning entities and a sparse map from entity to dense index.

use std::collections::HashMap;
use vstd::prelude::*;

use super::entity::Entity;

verus! {

broadcast use super::entity::lemma_entity_view_injective;

/// A sparse-set storage for a single component type `T`.
///
/// Components are stored contiguously; removal swaps the last element into the
/// freed slot so the dense arrays never have holes.
pub struct ComponentStorage<T> {
    /// The dense array of component data.
    data: Vec<T>,
    /// Dense index -> owning entity.
    entities: Vec<Entity>,
    /// Entity bits -> dense index.
    sparse: HashMap<u64, usize>,
}

impl<T> View for ComponentStorage<T> {
    type V = Map<Entity, T>;

    /// The components held, by owning entity.
    closed spec fn view(&self) -> Map<Entity, T> {
        Map::new(
            |e: Entity| self.sparse@.contains_key(e@),
            |e: Entity| self.data@[self.sparse@[e@] as int],
        )
    }
}

/// After inserting a component for an entity, that entity's component is the
/// one inserted, and every other entity keeps what it had.
pub proof fn lemma_get_after_insert<T>(before: Map<Entity, T>, entity: Entity, component: T)
    ensures
        before.insert(entity, component).contains_key(entity),
        before.insert(entity, component)[entity] == component,
        forall|other: Entity|
            other != entity ==> (#[trigger] before.insert(entity, component).contains_key(other)
                == before.contains_key(other) && (before.contains_key(other) ==> before.insert(
                entity,
                component,
            )[other] == before[other])),
{
}

/// Removing an entity's component right after inserting it leaves the storage
/// as removing it from the start would, and when the entity had no component
/// before, as it was.
pub proof fn lemma_remove_after_insert<T>(before: Map<Entity, T>, entity: Entity, component: T)
    ensures
        before.insert(entity, component).remove(entity) == before.remove(entity),
        !before.contains_key(entity) ==> before.insert(entity, component).remove(entity) == before,
{
    assert(before.insert(entity, component).remove(entity) =~= before.remove(entity));
    if !before.contains_key(entity) {
        assert(before.remove(entity) =~= before);
    }
}

impl<T> ComponentStorage<T> {
    /// The storage's internal invariant: the dense arrays have equal length,
    /// and the sparse map and the entity array are inverse to each other.
    pub closed spec fn wf(&self) -> bool {
        &&& self.data@.len() == self.entities@.len()
        &&& forall|i: int|
            0 <= i < self.entities@.len() ==> {
                &&& #[trigger] self.sparse@.contains_key(self.entities@[i]@)
                &&& self.sparse@[self.entities@[i]@] == i
            }
        &&& forall|k: u64|
            #[trigger] self.sparse@.contains_key(k) ==> {
                &&& self.sparse@[k] < self.entities@.len()
                &&& self.entities@[self.sparse@[k] as int]@ == k
            }
    }

    /// The owning entities in dense (iteration) order.
    pub closed spec fn dense_entities(&self) -> Seq<Entity> {
        self.entities@
    }

    /// The components in dense (iteration) order.
    pub closed spec fn dense_data(&self) -> Seq<T> {
        self.data@
    }

    /// The dense position of a stored entity.
    pub closed spec fn dense_index(&self, e: Entity) -> int {
        self.sparse@[e@] as int
    }

    /// The dense order lists every stored entity exactly once, each next to
    /// its own component.
    pub proof fn lemma_dense_order(&self)
        requires
            self.wf(),
        ensures
            self.dense_entities().len() == self.dense_data().len(),
            self.dense_entities().no_duplicates(),
            forall|i: int|
                0 <= i < self.dense_entities().len() ==> {
                    &&& #[trigger] self@.contains_key(self.dense_entities()[i])
                    &&& self@[self.dense_entities()[i]] == self.dense_data()[i]
                },
            forall|e: Entity|
                #[trigger] self@.contains_key(e) ==> {
                    &&& 0 <= self.dense_index(e) < self.dense_entities().len()
                    &&& self.dense_entities()[self.dense_index(e)] == e
                },
            forall|e: Entity|
                #[trigger] self@.contains_key(e) ==> self.dense_entities().contains(e),
            self@.dom().len() == self.dense_entities().len(),
    {
        let ents = self.entities@;
        assert forall|i: int, j: int| 0 <= i < ents.len() && 0 <= j < ents.len() && i != j
            implies ents[i] != ents[j] by {
            assert(self.sparse@.contains_key(self.entities@[i]@));
            assert(self.sparse@.contains_key(self.entities@[j]@));
        }
        assert forall|e: Entity| #[trigger] self@.contains_key(e)
            implies ents.contains(e) by {
            let i = self.sparse@[e@] as int;
            assert(ents[i]@ == e@);
            assert(ents[i] == e);
        }
        assert(self@.dom() =~= ents.to_set()) by {
            assert forall|e: Entity| ents.to_set().contains(e) implies self@.contains_key(e) by {
                let i = choose|i: int| 0 <= i < ents.len() && ents[i] == e;
                assert(self.sparse@.contains_key(ents[i]@));
            }
        }
        ents.unique_seq_to_set();
    }

    /// Create an empty storage.
    pub fn new() -> (s: Self)
        ensures
            s.wf(),
            s@ == Map::<Entity, T>::empty(),
    {
        let s = ComponentStorage { data: Vec::new(), entities: Vec::new(), sparse: HashMap::new() };
        assert(s@ =~= Map::<Entity, T>::empty());
        s
    }

    /// Insert a component for an entity, overwriting any component the entity
    /// already had.
    pub fn insert(&mut self, entity: Entity, component: T)
        requires
            old(self).wf(),
            old(self).dense_entities().len() < usize::MAX,
        ensures
            final(self).wf(),
            final(self)@ == old(self)@.insert(entity, component),
            old(self)@.contains_key(entity) ==> {
                &&& final(self).dense_entities() == old(self).dense_entities()
                &&& final(self).dense_data() == old(self).dense_data().update(
                    old(self).dense_index(entity),
                    component,
                )
            },
            !old(self)@.contains_key(entity) ==> {
                &&& final(self).dense_entities() == old(self).dense_entities().push(entity)
                &&& final(self).dense_data() == old(self).dense_data().push(component)
            },
    {
        let key = entity.to_bits();
        match self.sparse.get(&key) {
            Some(idx_ref) => {
                let dense_idx = *idx_ref;
                self.data.set(dense_idx, component);
                assert(self@ =~= old(self)@.insert(entity, component));
            },
            None => {
                let dense_idx = self.data.len();
                self.sparse.insert(key, dense_idx);
                self.entities.push(entity);
                self.data.push(component);
                assert forall|k: u64| #[trigger] self.sparse@.contains_key(k) implies {
                    &&& self.sparse@[k] < self.entities@.len()
                    &&& self.entities@[self.sparse@[k] as int]@ == k
                } by {
                    if k != key {
                        assert(old(self).sparse@.contains_key(k));
                    }
                }
                assert forall|i: int| 0 <= i < self.entities@.len() implies {
                    &&& #[trigger] self.sparse@.contains_key(self.entities@[i]@)
                    &&& self.sparse@[self.entities@[i]@] == i
                } by {
                    if i < dense_idx {
                        assert(old(self).sparse@.contains_key(old(self).entities@[i]@));
                    }
                }
                assert(self@ =~= old(self)@.insert(entity, component)) by {
                    assert forall|e: Entity| #[trigger] self@.contains_key(e) && e != entity
                        implies self@[e] == old(self)@[e] by {
                        assert(old(self).sparse@.contains_key(e@));
                    }
                }
            },
        }
    }

    /// Remove the component of an entity and return it; `None` when the
    /// entity had none.
    ///
    /// The last dense element is swapped into the freed slot.
    pub fn remove(&mut self, entity: Entity) -> (r: Option<T>)
        requires
            old(self).wf(),
        ensures
            final(self).wf(),
            final(self)@ == old(self)@.remove(entity),
            r == (if old(self)@.contains_key(entity) {
                Some(old(self)@[entity])
            } else {
                None::<T>
            }),
            old(self)@.contains_key(entity) ==> {
                let i = old(self).dense_index(entity);
                let last = old(self).dense_entities().len() - 1;
                &&& final(self).dense_entities() == old(self).dense_entities().update(
                    i,
                    old(self).dense_entities()[last],
                ).drop_last()
                &&& final(self).dense_data() == old(self).dense_data().update(
                    i,
                    old(self).dense_data()[last],
                ).drop_last()
            },
            !old(self)@.contains_key(entity) ==> {
                &&& final(self).dense_entities() == old(self).dense_entities()
                &&& final(self).dense_data() == old(self).dense_data()
            },
    {
        let key = entity.to_bits();
        let removed = self.sparse.remove(&key);
        match removed {
            None => {
                assert(self@ =~= old(self)@.remove(entity));
                None
            },
            Some(dense_idx) => {
                let ghost old_ents = old(self).entities@;
                let ghost old_sparse = old(self).sparse@;
                let last_idx = self.data.len() - 1;
                let value = self.data.swap_remove(dense_idx);
                let _gone = self.entities.swap_remove(dense_idx);
                if dense_idx != last_idx {
                    let swapped_in_entity = self.entities[dense_idx];
                    self.sparse.insert(swapped_in_entity.to_bits(), dense_idx);
                    assert(swapped_in_entity == old_ents[last_idx as int]);
                }
                assert forall|k: u64| #[trigger] self.sparse@.contains_key(k) implies {
                    &&& self.sparse@[k] < self.entities@.len()
                    &&& self.entities@[self.sparse@[k] as int]@ == k
                } by {
                    assert(old_sparse.contains_key(k));
                    if k != old_ents[last_idx as int]@ {
                        assert(old_sparse[k] != last_idx);
                        assert(old_sparse[k] != dense_idx);
                    }
                }
                assert forall|i: int| 0 <= i < self.entities@.len() implies {
                    &&& #[trigger] self.sparse@.contains_key(self.entities@[i]@)
                    &&& self.sparse@[self.entities@[i]@] == i
                } by {
                    if i != dense_idx {
                        assert(old_sparse.contains_key(old_ents[i]@));
                        assert(old_ents[i]@ != key);
                    }
                }
                assert(self@ =~= old(self)@.remove(entity)) by {
                    assert forall|e: Entity| #[trigger] self@.contains_key(e)
                        implies old(self)@.contains_key(e) && self@[e] == old(self)@[e] by {
                        let j = self.sparse@[e@] as int;
                        assert(old_sparse.contains_key(e@));
                        if e@ != old_ents[last_idx as int]@ {
                            assert(old_sparse[e@] != last_idx);
                        }
                    }
                    assert forall|e: Entity| #[trigger] old(self)@.contains_key(e) && e != entity
                        implies self@.contains_key(e) by {
                        if e@ != old_ents[last_idx as int]@ {
                            assert(old_sparse[e@] != last_idx);
                            assert(old_sparse[e@] != dense_idx);
                        }
                    }
                }
                Some(value)
            },
        }
    }

    /// All stored `(entity, component)` pairs in dense order.
    pub fn iter(&self) -> (r: Vec<(Entity, &T)>)
        requires
            self.wf(),
        ensures
            r@.len() == self.dense_entities().len(),
            forall|i: int|
                0 <= i < r@.len() ==> {
                    &&& (#[trigger] r@[i]).0 == self.dense_entities()[i]
                    &&& *r@[i].1 == self.dense_data()[i]
                },
    {
        let mut out: Vec<(Entity, &T)> = Vec::new();
        let n = self.entities.len();
        for i in 0..n
            invariant
                n == self.entities@.len(),
                self.wf(),
                out@.len() == i,
                forall|j: int|
                    0 <= j < i ==> {
                        &&& (#[trigger] out@[j]).0 == self.entities@[j]
                        &&& *out@[j].1 == self.data@[j]
                    },
        {
            out.push((self.entities[i], &self.data[i]));
        }
        out
    }

    /// All stored `(entity, component)` pairs in dense order, with mutable
    /// access to the components.
    pub fn iter_mut(&mut self) -> (r: Vec<(Entity, &mut T)>)
        requires
            old(self).wf(),
        ensures
            r@.len() == old(self).dense_entities().len(),
            forall|i: int|
                0 <= i < r@.len() ==> {
                    &&& (#[trigger] r@[i]).0 == old(self).dense_entities()[i]
                    &&& *r@[i].1 == old(self).dense_data()[i]
                },
            final(self).wf(),
            final(self).dense_entities() == old(self).dense_entities(),
            final(self).dense_data().len() == old(self).dense_data().len(),
            forall|i: int| 0 <= i < r@.len() ==> final(self).dense_data()[i] == *final(r@[i].1),
    {
        let n = self.entities.len();
        let ghost ents = self.entities@;
        let ghost data0 = self.data@;
        let mut out: Vec<(Entity, &mut T)> = Vec::new();
        let all: &mut [T] = self.data.as_mut_slice();
        let ghost all_final = final(all)@;
        let mut rest: &mut [T] = all;
        let mut i: usize = 0;
        while i < n
            invariant
                0 <= i <= n,
                n == ents.len(),
                n == data0.len(),
                ents == self.entities@,
                rest@ == data0.subrange(i as int, n as int),
                out@.len() == i,
                forall|j: int|
                    0 <= j < i ==> {
                        &&& (#[trigger] out@[j]).0 == ents[j]
                        &&& *out@[j].1 == data0[j]
                    },
                all_final == Seq::new(i as nat, |j: int| *final(out@[j].1)) + final(rest)@,
            decreases n - i,
        {
            let (head, tail) = rest.split_at_mut(1);
            let first = head.first_mut().unwrap();
            out.push((self.entities[i], first));
            rest = tail;
            i = i + 1;
        }
        out
    }

    /// Access the component of an entity.
    pub fn get(&self, entity: Entity) -> (r: Option<&T>)
        requires
            self.wf(),
        ensures
            r == (if self@.contains_key(entity) {
                Some(&self@[entity])
            } else {
                None::<&T>
            }),
    {
        match self.sparse.get(&entity.to_bits()) {
            Some(idx) => Some(&self.data[*idx]),
            None => None,
        }
    }

    /// Mutably access the component of an entity.
    pub fn get_mut(&mut self, entity: Entity) -> (r: Option<&mut T>)
        requires
            old(self).wf(),
        ensures
            final(self).wf(),
            match r {
                Some(c) => {
                    &&& old(self)@.contains_key(entity)
                    &&& *c == old(self)@[entity]
                    &&& final(self)@ == old(self)@.insert(entity, *final(c))
                },
                None => {
                    &&& !old(self)@.contains_key(entity)
                    &&& final(self)@ == old(self)@
                },
            },
    {
        match self.sparse.get(&entity.to_bits()) {
            Some(idx_ref) => {
                let idx = *idx_ref;
                Some(&mut self.data[idx])
            },
            None => None,
        }
    }

    /// Whether the entity has a component in this storage.
    pub fn contains(&self, entity: Entity) -> (r: bool)
        requires
            self.wf(),
        ensures
            r == self@.contains_key(entity),
    {
        self.sparse.contains_key(&entity.to_bits())
    }
}

impl<T> Default for ComponentStorage<T> {
    /// An empty storage.
    fn default() -> (s: Self)
        ensures
            s.wf(),
            s@ == Map::<Entity, T>::empty(),
    {
        Self::new()
    }
}

} // verus!
