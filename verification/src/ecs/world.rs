//! The ECS world, backed by `hecs` for archetype storage.

use hecs::World as HecsWorld;
use vstd::prelude::*;

use super::entity::{spec_generation, Entity, ID_SPAN};

verus! {

/// `hecs::World`, the archetype store that holds entities and components.
#[verifier::external_type_specification]
#[verifier::external_body]
pub struct ExHecsWorld(HecsWorld);

/// The live entities of a `hecs::World`, each by its packed 64-bit form
/// (`hecs::Entity::to_bits`): those `World::contains` accepts, spawned or
/// reserved and not despawned.
pub uninterp spec fn live_entities(w: HecsWorld) -> Set<u64>;

/// The entities of a `hecs::World` that were reserved (`reserve_entity`)
/// and not yet turned into real entities by a flush; iteration does not show
/// them.
pub uninterp spec fn reserved_in(w: HecsWorld) -> Set<u64>;

/// How many components the entity with packed form `bits` carries in a
/// `hecs::World` (one per component type); `0` for an entity that is not live.
pub uninterp spec fn components_in(w: HecsWorld, bits: u64) -> nat;

/// `hecs::World::new`: a world with no entity, so no component.
#[verifier::external_body]
fn hecs_new() -> (w: HecsWorld)
    ensures
        live_entities(w) == Set::<u64>::empty(),
        reserved_in(w) == Set::<u64>::empty(),
        forall|b: u64| #[trigger] components_in(w, b) == 0,
{
    HecsWorld::new()
}

/// `hecs::World::spawn` with no component. hecs allocates an entity that is
/// not live (a fresh id, or a freed id with a new generation); generations are
/// never zero. The new entity has no component; the others keep theirs.
#[verifier::external_body]
fn hecs_spawn_empty(w: &mut HecsWorld) -> (bits: u64)
    ensures
        !live_entities(*old(w)).contains(bits),
        live_entities(*final(w)) == live_entities(*old(w)).insert(bits),
        spec_generation(bits) != 0,
        reserved_in(*final(w)) == Set::<u64>::empty(),
        components_in(*final(w), bits) == 0,
        forall|b: u64| b != bits ==> #[trigger] components_in(*final(w), b) == components_in(*old(w), b),
{
    w.spawn(()).to_bits().get()
}

/// `hecs::World::despawn` of the entity with packed form `bits`: succeeds
/// exactly when the entity is live, and then it is no longer live and its
/// components are dropped; the other entities keep theirs. hecs first turns
/// reserved entities into real ones. Bits whose generation part is zero name
/// no entity (`hecs::Entity::from_bits` rejects them): hecs is not called and
/// nothing changes.
#[verifier::external_body]
fn hecs_despawn(w: &mut HecsWorld, bits: u64) -> (r: bool)
    ensures
        r == live_entities(*old(w)).contains(bits),
        live_entities(*final(w)) == live_entities(*old(w)).remove(bits),
        reserved_in(*final(w)) == (if spec_generation(bits) != 0 {
            Set::<u64>::empty()
        } else {
            reserved_in(*old(w))
        }),
        components_in(*final(w), bits) == 0,
        forall|b: u64| b != bits ==> #[trigger] components_in(*final(w), b) == components_in(*old(w), b),
{
    match hecs::Entity::from_bits(bits) {
        Some(e) => w.despawn(e).is_ok(),
        None => false,
    }
}

/// `hecs::World::insert_one`: succeeds exactly when the entity is live; the
/// set of live entities does not change. On success the entity carries the
/// component, which replaces one of the same type or is added to the others,
/// so it has one component more or as many as before, and at least one. A
/// failed insertion changes no entity's components, and no other entity's
/// components change. hecs first turns reserved entities into real ones,
/// except for bits whose generation part is zero, which hecs is not asked
/// about.
#[verifier::external_body]
fn hecs_insert_one<T: Send + Sync + 'static>(w: &mut HecsWorld, bits: u64, component: T) -> (r:
    bool)
    ensures
        r == live_entities(*old(w)).contains(bits),
        live_entities(*final(w)) == live_entities(*old(w)),
        reserved_in(*final(w)) == (if spec_generation(bits) != 0 {
            Set::<u64>::empty()
        } else {
            reserved_in(*old(w))
        }),
        r ==> {
            &&& components_in(*final(w), bits) >= 1
            &&& components_in(*old(w), bits) <= components_in(*final(w), bits) <= components_in(
                *old(w),
                bits,
            ) + 1
        },
        !r ==> components_in(*final(w), bits) == components_in(*old(w), bits),
        forall|b: u64| b != bits ==> #[trigger] components_in(*final(w), b) == components_in(*old(w), b),
{
    match hecs::Entity::from_bits(bits) {
        Some(e) => w.insert_one(e, component).is_ok(),
        None => false,
    }
}

/// `hecs::World::remove_one`: the removed component, when the entity is live
/// and had one, and then it has one component fewer; otherwise no component
/// is removed. The set of live entities does not change, nor do the other
/// entities' components. hecs first turns reserved entities into real ones,
/// except for bits whose generation part is zero, which hecs is not asked
/// about.
#[verifier::external_body]
fn hecs_remove_one<T: Send + Sync + 'static>(w: &mut HecsWorld, bits: u64) -> (r: Option<T>)
    ensures
        r is Some ==> live_entities(*old(w)).contains(bits),
        live_entities(*final(w)) == live_entities(*old(w)),
        reserved_in(*final(w)) == (if spec_generation(bits) != 0 {
            Set::<u64>::empty()
        } else {
            reserved_in(*old(w))
        }),
        r is Some ==> components_in(*old(w), bits) >= 1 && components_in(*final(w), bits)
            == components_in(*old(w), bits) - 1,
        r is None ==> components_in(*final(w), bits) == components_in(*old(w), bits),
        forall|b: u64| b != bits ==> #[trigger] components_in(*final(w), b) == components_in(*old(w), b),
{
    match hecs::Entity::from_bits(bits) {
        Some(e) => w.remove_one::<T>(e).ok(),
        None => None,
    }
}

/// `hecs::World::query_one_mut::<&T>`: the entity's `T` component, when the
/// entity is live and has one. Which component it is, is not stated. No
/// entity gains or loses a component.
#[verifier::external_body]
fn hecs_get<T: Send + Sync + 'static>(w: &mut HecsWorld, bits: u64) -> (r: Option<&T>)
    ensures
        r is Some ==> live_entities(*old(w)).contains(bits) && components_in(*old(w), bits) >= 1,
        live_entities(*final(w)) == live_entities(*old(w)),
        reserved_in(*final(w)) == reserved_in(*old(w)),
        forall|b: u64| #[trigger] components_in(*final(w), b) == components_in(*old(w), b),
{
    match hecs::Entity::from_bits(bits) {
        Some(e) => w.query_one_mut::<&T>(e).ok(),
        None => None,
    }
}

/// `hecs::World::query_one_mut::<&mut T>`: mutable access to the entity's
/// `T` component, when the entity is live and has one. Writing through it
/// changes no entity's liveness, and no entity gains or loses a component.
#[verifier::external_body]
fn hecs_get_mut<T: Send + Sync + 'static>(w: &mut HecsWorld, bits: u64) -> (r: Option<&mut T>)
    ensures
        r is Some ==> live_entities(*old(w)).contains(bits) && components_in(*old(w), bits) >= 1,
        live_entities(*final(w)) == live_entities(*old(w)),
        reserved_in(*final(w)) == reserved_in(*old(w)),
        forall|b: u64| #[trigger] components_in(*final(w), b) == components_in(*old(w), b),
{
    match hecs::Entity::from_bits(bits) {
        Some(e) => w.query_one_mut::<&mut T>(e).ok(),
        None => None,
    }
}

/// `hecs::World::iter` mapped to each entity's packed form: every live
/// entity that is not merely reserved, exactly once, each with a non-zero
/// generation.
#[verifier::external_body]
fn hecs_entity_bits(w: &HecsWorld) -> (r: Vec<u64>)
    ensures
        r@.to_set() == live_entities(*w).difference(reserved_in(*w)),
        r@.no_duplicates(),
        forall|i: int| 0 <= i < r@.len() ==> spec_generation(#[trigger] r@[i]) != 0,
{
    w.iter().map(|e| e.entity().to_bits().get()).collect()
}

/// A spawned entity is live until it is despawned, and despawning it leaves
/// the other entities as they were; a second despawn finds nothing.
pub proof fn lemma_spawn_then_despawn(live: Set<u64>, spawned: u64)
    requires
        !live.contains(spawned),
    ensures
        live.insert(spawned).contains(spawned),
        live.insert(spawned).remove(spawned) == live,
        !live.insert(spawned).remove(spawned).contains(spawned),
{
    assert(live.insert(spawned).remove(spawned) =~= live);
}

/// The ECS world, holding all entities and their components.
pub struct World {
    inner: HecsWorld,
}

impl View for World {
    type V = Set<u64>;

    /// The live entities, by packed form.
    closed spec fn view(&self) -> Set<u64> {
        live_entities(self.inner)
    }
}

impl World {
    /// How many components the entity with packed form `bits` carries (one
    /// per component type); `0` when it is not live.
    pub closed spec fn component_count(&self, bits: u64) -> nat {
        components_in(self.inner, bits)
    }

    /// The live entities that were only reserved through the underlying
    /// `hecs::World` and not yet made real; iteration does not list them.
    /// Every operation of this type that adds or removes entities or
    /// components of an entity with a non-zero generation makes them real.
    pub closed spec fn reserved(&self) -> Set<u64> {
        reserved_in(self.inner)
    }
}

impl World {
    /// Create an empty world.
    pub fn new() -> (w: Self)
        ensures
            w@ == Set::<u64>::empty(),
            w.reserved() == Set::<u64>::empty(),
            forall|b: u64| #[trigger] w.component_count(b) == 0,
    {
        World { inner: hecs_new() }
    }

    /// Spawn a new entity with no components. The entity was not live before.
    pub fn spawn(&mut self) -> (e: Entity)
        ensures
            !old(self)@.contains(e@),
            final(self)@ == old(self)@.insert(e@),
            final(self).reserved() == Set::<u64>::empty(),
            final(self).component_count(e@) == 0,
            forall|b: u64|
                b != e@ ==> #[trigger] final(self).component_count(b) == old(self).component_count(b),
    {
        let bits = hecs_spawn_empty(&mut self.inner);
        match Entity::from_bits(bits) {
            Some(e) => e,
            None => {
                assert(false);
                Entity::from_bits(ID_SPAN).unwrap()
            },
        }
    }

    /// Despawn an entity with all its components; `true` exactly when the
    /// entity was live.
    pub fn despawn(&mut self, entity: Entity) -> (r: bool)
        ensures
            r == old(self)@.contains(entity@),
            final(self)@ == old(self)@.remove(entity@),
            final(self).reserved() == (if spec_generation(entity@) != 0 {
                Set::<u64>::empty()
            } else {
                old(self).reserved()
            }),
            final(self).component_count(entity@) == 0,
            forall|b: u64|
                b != entity@ ==> #[trigger] final(self).component_count(b) == old(self).component_count(b),
    {
        hecs_despawn(&mut self.inner, entity.to_bits())
    }

    /// Add a component to an entity, replacing one of the same type: the
    /// entity then has one component more, or as many when one was replaced.
    /// Nothing happens when the entity is not live. Which entities are live,
    /// and the other entities' components, do not change.
    pub fn insert<T: Send + Sync + 'static>(&mut self, entity: Entity, component: T)
        ensures
            final(self)@ == old(self)@,
            final(self).reserved() == (if spec_generation(entity@) != 0 {
                Set::<u64>::empty()
            } else {
                old(self).reserved()
            }),
            old(self)@.contains(entity@) ==> {
                &&& final(self).component_count(entity@) >= 1
                &&& old(self).component_count(entity@) <= final(self).component_count(entity@)
                    <= old(self).component_count(entity@) + 1
            },
            !old(self)@.contains(entity@) ==> final(self).component_count(entity@)
                == old(self).component_count(entity@),
            forall|b: u64|
                b != entity@ ==> #[trigger] final(self).component_count(b) == old(self).component_count(b),
    {
        let _ = hecs_insert_one(&mut self.inner, entity.to_bits(), component);
    }

    /// Remove a component from an entity and return it; the entity then has
    /// one component fewer. Without one, nothing changes. Which entities are
    /// live, and the other entities' components, do not change.
    pub fn remove<T: Send + Sync + 'static>(&mut self, entity: Entity) -> (r: Option<T>)
        ensures
            final(self)@ == old(self)@,
            final(self).reserved() == (if spec_generation(entity@) != 0 {
                Set::<u64>::empty()
            } else {
                old(self).reserved()
            }),
            r is Some ==> old(self)@.contains(entity@),
            r is Some ==> old(self).component_count(entity@) >= 1 && final(self).component_count(
                entity@,
            ) == old(self).component_count(entity@) - 1,
            r is None ==> final(self).component_count(entity@) == old(self).component_count(entity@),
            forall|b: u64|
                b != entity@ ==> #[trigger] final(self).component_count(b) == old(self).component_count(b),
    {
        hecs_remove_one::<T>(&mut self.inner, entity.to_bits())
    }

    /// The `T` component of an entity, when it is live and has one.
    ///
    /// The world is borrowed exclusively, so no other borrow of a component
    /// can be alive and the lookup cannot conflict with one.
    pub fn get<T: Send + Sync + 'static>(&mut self, entity: Entity) -> (r: Option<&T>)
        ensures
            final(self)@ == old(self)@,
            final(self).reserved() == old(self).reserved(),
            r is Some ==> old(self)@.contains(entity@) && old(self).component_count(entity@) >= 1,
            forall|b: u64| #[trigger] final(self).component_count(b) == old(self).component_count(b),
    {
        hecs_get::<T>(&mut self.inner, entity.to_bits())
    }

    /// Mutable access to the `T` component of an entity, when it is live and
    /// has one. Which entities are live does not change.
    pub fn get_mut<T: Send + Sync + 'static>(&mut self, entity: Entity) -> (r: Option<&mut T>)
        ensures
            final(self)@ == old(self)@,
            final(self).reserved() == old(self).reserved(),
            r is Some ==> old(self)@.contains(entity@) && old(self).component_count(entity@) >= 1,
            forall|b: u64| #[trigger] final(self).component_count(b) == old(self).component_count(b),
    {
        hecs_get_mut::<T>(&mut self.inner, entity.to_bits())
    }

    /// All live entities that are not merely reserved, each exactly once;
    /// when nothing was reserved through the underlying world, all live
    /// entities.
    pub fn entities(&self) -> (r: Vec<Entity>)
        ensures
            r@.no_duplicates(),
            forall|i: int|
                0 <= i < r@.len() ==> self@.contains(#[trigger] r@[i]@) && !self.reserved().contains(
                    r@[i]@,
                ),
            forall|b: u64|
                #[trigger] self@.contains(b) && !self.reserved().contains(b) ==> exists|i: int|
                    0 <= i < r@.len() && r@[i]@ == b,
            self.reserved() == Set::<u64>::empty() ==> r@.len() == self@.len(),
    {
        let bits = hecs_entity_bits(&self.inner);
        let mut out: Vec<Entity> = Vec::new();
        let n = bits.len();
        for i in 0..n
            invariant
                n == bits@.len(),
                forall|j: int| 0 <= j < n ==> spec_generation(#[trigger] bits@[j]) != 0,
                out@.len() == i,
                forall|j: int| 0 <= j < i ==> (#[trigger] out@[j])@ == bits@[j],
        {
            match Entity::from_bits(bits[i]) {
                Some(e) => out.push(e),
                None => {
                    assert(false);
                },
            }
        }
        proof {
            bits@.unique_seq_to_set();
            assert forall|a: int, b: int| 0 <= a < out@.len() && 0 <= b < out@.len() && a != b
                implies out@[a] != out@[b] by {
                assert(bits@[a] != bits@[b]);
            }
            assert forall|i: int| 0 <= i < out@.len() implies self@.contains(#[trigger] out@[i]@)
                && !self.reserved().contains(out@[i]@) by {
                assert(bits@.to_set().contains(bits@[i]));
            }
            assert forall|b: u64| #[trigger] self@.contains(b) && !self.reserved().contains(b) implies exists|i: int|
                0 <= i < out@.len() && out@[i]@ == b by {
                assert(bits@.to_set().contains(b));
                let i = choose|i: int| 0 <= i < bits@.len() && bits@[i] == b;
                assert(out@[i]@ == b);
            }
            if self.reserved() == Set::<u64>::empty() {
                assert(self@.difference(self.reserved()) =~= self@);
            }
        }
        out
    }

    /// The underlying `hecs::World`, for queries. Through a shared
    /// `hecs::World` entities can still be reserved, so nothing is promised of
    /// this world once the borrow ends.
    pub fn inner(&mut self) -> (r: &HecsWorld)
        ensures
            live_entities(*r) == old(self)@,
            reserved_in(*r) == old(self).reserved(),
            forall|b: u64| #[trigger] components_in(*r, b) == old(self).component_count(b),
    {
        &self.inner
    }

    /// The underlying `hecs::World`, mutably, for queries.
    pub fn inner_mut(&mut self) -> (r: &mut HecsWorld)
        ensures
            live_entities(*r) == old(self)@,
            reserved_in(*r) == old(self).reserved(),
            final(self)@ == live_entities(*final(r)),
            final(self).reserved() == reserved_in(*final(r)),
            forall|b: u64| #[trigger] components_in(*r, b) == old(self).component_count(b),
            forall|b: u64| #[trigger] final(self).component_count(b) == components_in(*final(r), b),
    {
        &mut self.inner
    }
}

impl Default for World {
    /// An empty world.
    fn default() -> (w: Self)
        ensures
            w@ == Set::<u64>::empty(),
            w.reserved() == Set::<u64>::empty(),
            forall|b: u64| #[trigger] w.component_count(b) == 0,
    {
        Self::new()
    }
}

} // verus!
