//! Physics collision events (enter, exit).

use vstd::prelude::*;

use crate::ecs::entity::Entity;

verus! {

/// Type of collision event emitted by the physics engine.
#[derive(Debug, Clone, Copy, PartialEq, Eq, Structural)]
pub enum CollisionState {
    /// Two colliders just touched.
    Enter,
    /// Two colliders just separated.
    Exit,
}

/// Event emitted when two entities with colliders interact.
#[derive(Debug, Clone, Copy, PartialEq, Eq, Structural)]
pub struct CollisionEvent {
    /// The state of the collision.
    pub state: CollisionState,
    /// The first entity involved.
    pub entity_a: Entity,
    /// The second entity involved.
    pub entity_b: Entity,
}

/// Buffer for the collision events generated during a physics step, in the
/// order they occurred. Usually stored as a resource.
#[derive(Debug)]
pub struct CollisionEvents {
    /// The buffered events, oldest first.
    pub events: Vec<CollisionEvent>,
}

impl CollisionEvents {
    /// An empty buffer.
    pub fn new() -> (r: Self)
        ensures
            r.events@ == Seq::<CollisionEvent>::empty(),
    {
        CollisionEvents { events: Vec::new() }
    }

    /// Append an event after the ones already buffered.
    pub fn push(&mut self, event: CollisionEvent)
        ensures
            final(self).events@ == old(self).events@.push(event),
    {
        self.events.push(event);
    }

    /// Drop all buffered events.
    pub fn clear(&mut self)
        ensures
            final(self).events@ == Seq::<CollisionEvent>::empty(),
    {
        self.events.clear();
    }
}

impl Default for CollisionEvents {
    /// An empty event buffer.
    fn default() -> (r: Self)
        ensures
            r.events@ == Seq::<CollisionEvent>::empty(),
    {
        Self::new()
    }
}

} // verus!
