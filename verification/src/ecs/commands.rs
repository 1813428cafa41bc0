//! Deferred world mutation commands.
//!
//! Spawns, despawns and component changes are queued while systems run and
//! applied to the world afterwards, in the order they were queued.

use std::marker::PhantomData;
use vstd::prelude::*;

use super::entity::Entity;
use super::world::World;

verus! {

/// What a queued command does.
#[derive(Debug, Clone, Copy, PartialEq, Eq, Structural)]
pub enum CommandKind {
    /// Spawn an entity and hand it to a callback.
    Spawn,
    /// Despawn an entity.
    Despawn(Entity),
    /// Insert a component on an entity.
    Insert(Entity),
    /// Remove a component from an entity.
    Remove(Entity),
}

/// The facts a component insertion on `entity` leaves: the live entities
/// stay; a live entity then carries at least one component, one more or as
/// many as before; an entity that is not live keeps its count; no other
/// entity's components change.
pub open spec fn inserted_on(before: World, after: World, entity: Entity) -> bool {
    &&& after@ == before@
    &&& before@.contains(entity@) ==> {
        &&& after.component_count(entity@) >= 1
        &&& before.component_count(entity@) <= after.component_count(entity@)
            <= before.component_count(entity@) + 1
    }
    &&& !before@.contains(entity@) ==> after.component_count(entity@) == before.component_count(
        entity@,
    )
    &&& forall|b: u64|
        b != entity@ ==> #[trigger] after.component_count(b) == before.component_count(b)
}

/// The facts a component removal from `entity` leaves: the live entities
/// stay; the entity has as many components as before or one fewer; no other
/// entity's components change.
pub open spec fn removed_from(before: World, after: World, entity: Entity) -> bool {
    &&& after@ == before@
    &&& (after.component_count(entity@) == before.component_count(entity@) || (
    before.component_count(entity@) >= 1 && after.component_count(entity@)
        == before.component_count(entity@) - 1))
    &&& forall|b: u64|
        b != entity@ ==> #[trigger] after.component_count(b) == before.component_count(b)
}

/// A deferred component insertion, applied once to the entity it was queued
/// for.
trait InsertAction: Send + Sync {
    fn apply(self: Box<Self>, entity: Entity, world: &mut World)
        ensures
            inserted_on(*old(world), *final(world), entity),
    ;
}

/// A deferred component removal, applied once to the entity it was queued
/// for.
trait RemoveAction: Send + Sync {
    fn apply(self: Box<Self>, entity: Entity, world: &mut World)
        ensures
            removed_from(*old(world), *final(world), entity),
    ;
}

/// A deferred spawn, which runs code of the caller's.
trait SpawnAction: Send + Sync {
    fn apply(self: Box<Self>, world: &mut World);
}

/// Runs the user's spawn callback (`FnOnce::call_once`) on the new entity.
/// Nothing is promised of what it does to the world.
#[verifier::external_body]
fn run_spawn_callback<F: FnOnce(Entity, &mut World)>(f: F, entity: Entity, world: &mut World) {
    f(entity, world)
}

struct SpawnCommand<F> {
    callback: F,
}

impl<F: FnOnce(Entity, &mut World) + Send + Sync> SpawnAction for SpawnCommand<F> {
    /// Spawns an entity and hands it, with the world, to the callback.
    fn apply(self: Box<Self>, world: &mut World) {
        let command = *self;
        let entity = world.spawn();
        run_spawn_callback(command.callback, entity, world)
    }
}

struct InsertCommand<T> {
    component: T,
}

impl<T: Send + Sync + 'static> InsertAction for InsertCommand<T> {
    /// Inserts the component on the entity when it is live.
    fn apply(self: Box<Self>, entity: Entity, world: &mut World) {
        let command = *self;
        world.insert(entity, command.component)
    }
}

struct RemoveCommand<T> {
    marker: PhantomData<T>,
}

impl<T: Send + Sync + 'static> RemoveAction for RemoveCommand<T> {
    /// Removes the entity's `T` component, if it has one.
    fn apply(self: Box<Self>, entity: Entity, world: &mut World) {
        let _ = world.remove::<T>(entity);
    }
}

/// A queued insertion behind dynamic dispatch.
struct BoxedInsert {
    inner: Box<dyn InsertAction>,
}

/// A queued removal behind dynamic dispatch.
struct BoxedRemove {
    inner: Box<dyn RemoveAction>,
}

/// A queued spawn behind dynamic dispatch.
struct BoxedSpawn {
    inner: Box<dyn SpawnAction>,
}

fn box_insert<C: InsertAction + 'static>(command: C) -> BoxedInsert {
    BoxedInsert { inner: Box::new(command) }
}

fn box_remove<C: RemoveAction + 'static>(command: C) -> BoxedRemove {
    BoxedRemove { inner: Box::new(command) }
}

fn box_spawn<C: SpawnAction + 'static>(command: C) -> BoxedSpawn {
    BoxedSpawn { inner: Box::new(command) }
}

/// A queue entry: the command's kind, with the entity it names and, for
/// spawns and component changes, the boxed work.
enum Queued {
    Spawn(BoxedSpawn),
    Despawn(Entity),
    Insert(Entity, BoxedInsert),
    Remove(Entity, BoxedRemove),
}

/// The kind a queue entry records.
spec fn kind_of(q: Queued) -> CommandKind {
    match q {
        Queued::Spawn(_) => CommandKind::Spawn,
        Queued::Despawn(e) => CommandKind::Despawn(e),
        Queued::Insert(e, _) => CommandKind::Insert(e),
        Queued::Remove(e, _) => CommandKind::Remove(e),
    }
}

/// Whether a sequence of commands holds no spawn.
pub open spec fn no_spawns(kinds: Seq<CommandKind>) -> bool {
    forall|i: int| 0 <= i < kinds.len() ==> !((#[trigger] kinds[i]) is Spawn)
}

/// Whether command `k` names the entity with packed form `b`.
pub open spec fn names(k: CommandKind, b: u64) -> bool {
    match k {
        CommandKind::Spawn => false,
        CommandKind::Despawn(e) => e@ == b,
        CommandKind::Insert(e) => e@ == b,
        CommandKind::Remove(e) => e@ == b,
    }
}

/// Whether some command of `kinds` names entity `b`.
pub open spec fn named(kinds: Seq<CommandKind>, b: u64) -> bool
    decreases kinds.len(),
{
    kinds.len() > 0 && (names(kinds.last(), b) || named(kinds.drop_last(), b))
}

/// Whether the last command of `kinds` naming entity `b` is an insertion.
pub open spec fn last_is_insert(kinds: Seq<CommandKind>, b: u64) -> bool
    decreases kinds.len(),
{
    if kinds.len() == 0 {
        false
    } else if names(kinds.last(), b) {
        kinds.last() is Insert
    } else {
        last_is_insert(kinds.drop_last(), b)
    }
}

/// The commands of `kinds` after its last spawn: all of them when it holds
/// no spawn.
pub open spec fn after_last_spawn(kinds: Seq<CommandKind>) -> Seq<CommandKind>
    decreases kinds.len(),
{
    if kinds.len() == 0 {
        Seq::empty()
    } else if kinds.last() is Spawn {
        Seq::empty()
    } else {
        after_last_spawn(kinds.drop_last()).push(kinds.last())
    }
}

/// Whether some command of `kinds` despawns entity `b`.
pub open spec fn despawned(kinds: Seq<CommandKind>, b: u64) -> bool
    decreases kinds.len(),
{
    kinds.len() > 0 && ((kinds.last() is Despawn && names(kinds.last(), b)) || despawned(
        kinds.drop_last(),
        b,
    ))
}

/// What applying the queued commands `kinds` does to a world, as far as the
/// commands themselves decide it. Whatever the queue holds, an entity
/// despawned after the last spawn is not live at the end, and an entity
/// whose last command after the last spawn is an insertion carries a
/// component when it is live at the end. For a queue without spawns,
/// moreover, exactly the entities the queue does not despawn stay live, and
/// an entity no command names keeps its components.
pub open spec fn commands_applied(kinds: Seq<CommandKind>, before: World, after: World) -> bool {
    &&& forall|b: u64|
        despawned(after_last_spawn(kinds), b) ==> !(#[trigger] after@.contains(b))
    &&& forall|b: u64|
        last_is_insert(after_last_spawn(kinds), b) && after@.contains(b)
            ==> #[trigger] after.component_count(b) >= 1
    &&& no_spawns(kinds) ==> after@ == after_despawns(before@, kinds)
    &&& no_spawns(kinds) ==> forall|b: u64|
        !named(kinds, b) ==> #[trigger] after.component_count(b) == before.component_count(b)
}

proof fn lemma_last_insert_survives(kinds: Seq<CommandKind>, i: int, e: Entity)
    requires
        0 <= i < kinds.len(),
        kinds[i] == CommandKind::Insert(e),
        forall|j: int| i < j < kinds.len() ==> !((#[trigger] kinds[j]) is Spawn) && !names(kinds[j], e@),
    ensures
        last_is_insert(after_last_spawn(kinds), e@),
    decreases kinds.len(),
{
    let last = kinds.last();
    if i < kinds.len() - 1 {
        assert(kinds.drop_last()[i] == kinds[i]);
        assert forall|j: int| i < j < kinds.drop_last().len() implies !((#[trigger] kinds.drop_last()[j]) is Spawn)
            && !names(kinds.drop_last()[j], e@) by {
            assert(kinds.drop_last()[j] == kinds[j]);
        }
        lemma_last_insert_survives(kinds.drop_last(), i, e);
        assert(!(kinds[kinds.len() - 1] is Spawn));
        assert(!names(kinds[kinds.len() - 1], e@));
        let s = after_last_spawn(kinds);
        assert(s == after_last_spawn(kinds.drop_last()).push(last));
        assert(s.drop_last() =~= after_last_spawn(kinds.drop_last()));
    } else {
        let s = after_last_spawn(kinds);
        assert(s == after_last_spawn(kinds.drop_last()).push(last));
    }
}

proof fn lemma_despawn_survives(kinds: Seq<CommandKind>, i: int, e: Entity)
    requires
        0 <= i < kinds.len(),
        kinds[i] == CommandKind::Despawn(e),
        forall|j: int| i < j < kinds.len() ==> !((#[trigger] kinds[j]) is Spawn),
    ensures
        despawned(after_last_spawn(kinds), e@),
    decreases kinds.len(),
{
    if i < kinds.len() - 1 {
        assert(kinds.drop_last()[i] == kinds[i]);
        assert forall|j: int| i < j < kinds.drop_last().len() implies !((#[trigger] kinds.drop_last()[j]) is Spawn) by {
            assert(kinds.drop_last()[j] == kinds[j]);
        }
        lemma_despawn_survives(kinds.drop_last(), i, e);
        assert(!(kinds[kinds.len() - 1] is Spawn));
        let s = after_last_spawn(kinds);
        assert(s.drop_last() =~= after_last_spawn(kinds.drop_last()));
    }
}

/// Every queued command runs, in queue order, whether or not the queue holds
/// spawns: once the commands are applied, an entity that got an insertion
/// with no spawn and no other command on it queued after, and that is live
/// at the end, carries a component; and an entity despawned with no spawn
/// queued after is not live at the end.
pub proof fn lemma_queued_commands_take_effect(
    kinds: Seq<CommandKind>,
    before: World,
    after: World,
    i: int,
)
    requires
        commands_applied(kinds, before, after),
        0 <= i < kinds.len(),
        forall|j: int| i < j < kinds.len() ==> !((#[trigger] kinds[j]) is Spawn),
    ensures
        kinds[i] matches CommandKind::Despawn(e) ==> !after@.contains(e@),
        kinds[i] matches CommandKind::Insert(e) ==> (forall|j: int|
            i < j < kinds.len() ==> !names(#[trigger] kinds[j], e@)) ==> (after@.contains(e@)
            ==> after.component_count(e@) >= 1),
{
    match kinds[i] {
        CommandKind::Despawn(e) => {
            lemma_despawn_survives(kinds, i, e);
        },
        CommandKind::Insert(e) => {
            if forall|j: int| i < j < kinds.len() ==> !names(#[trigger] kinds[j], e@) {
                lemma_last_insert_survives(kinds, i, e);
            }
        },
        _ => {},
    }
}

/// The live set after despawning, in order, the entities of `kinds`.
pub open spec fn after_despawns(live: Set<u64>, kinds: Seq<CommandKind>) -> Set<u64>
    decreases kinds.len(),
{
    if kinds.len() == 0 {
        live
    } else {
        let rest = after_despawns(live, kinds.drop_last());
        match kinds.last() {
            CommandKind::Despawn(e) => rest.remove(e@),
            _ => rest,
        }
    }
}

/// Collects deferred operations on the world.
pub struct Commands {
    queue: Vec<Queued>,
    kinds: Ghost<Seq<CommandKind>>,
}

impl View for Commands {
    type V = Seq<CommandKind>;

    /// The queued commands, oldest first.
    closed spec fn view(&self) -> Seq<CommandKind> {
        self.kinds@
    }
}

impl Commands {
    /// The queue matches its description.
    pub closed spec fn wf(&self) -> bool {
        &&& self.queue@.len() == self.kinds@.len()
        &&& forall|i: int| 0 <= i < self.queue@.len() ==> self.kinds@[i] == kind_of(#[trigger] self.queue@[i])
    }

    /// Create an empty command queue.
    pub fn new() -> (c: Self)
        ensures
            c.wf(),
            c@ == Seq::<CommandKind>::empty(),
    {
        Commands { queue: Vec::new(), kinds: Ghost(Seq::empty()) }
    }

    fn push(&mut self, q: Queued)
        requires
            old(self).wf(),
        ensures
            final(self).wf(),
            final(self)@ == old(self)@.push(kind_of(q)),
    {
        let ghost k = kind_of(q);
        self.queue.push(q);
        self.kinds = Ghost(self.kinds@.push(k));
    }

    /// Queue the spawn of a new entity; when applied, the callback receives the
    /// entity and the world.
    pub fn spawn<F: FnOnce(Entity, &mut World) + Send + Sync + 'static>(&mut self, f: F)
        requires
            old(self).wf(),
        ensures
            final(self).wf(),
            final(self)@ == old(self)@.push(CommandKind::Spawn),
    {
        self.push(Queued::Spawn(box_spawn(SpawnCommand { callback: f })));
    }

    /// Queue the despawn of an entity.
    pub fn despawn(&mut self, entity: Entity)
        requires
            old(self).wf(),
        ensures
            final(self).wf(),
            final(self)@ == old(self)@.push(CommandKind::Despawn(entity)),
    {
        self.push(Queued::Despawn(entity));
    }

    /// Queue the insertion of a component on an entity.
    pub fn insert<T: Send + Sync + 'static>(&mut self, entity: Entity, component: T)
        requires
            old(self).wf(),
        ensures
            final(self).wf(),
            final(self)@ == old(self)@.push(CommandKind::Insert(entity)),
    {
        self.push(Queued::Insert(entity, box_insert(InsertCommand { component })));
    }

    /// Queue the removal of a component of type `T` from an entity.
    pub fn remove<T: Send + Sync + 'static>(&mut self, entity: Entity)
        requires
            old(self).wf(),
        ensures
            final(self).wf(),
            final(self)@ == old(self)@.push(CommandKind::Remove(entity)),
    {
        self.push(Queued::Remove(entity, box_remove(RemoveCommand::<T> { marker: PhantomData })));
    }

    /// Apply all queued commands to the world in the order they were queued,
    /// leaving the queue empty.
    ///
    /// For a queue without spawns: exactly the live entities it did not
    /// despawn stay live; an entity whose last command is an insertion and
    /// that is still live carries a component; an entity no command names
    /// keeps its components. A spawn runs code the queue cannot see.
    pub fn apply(&mut self, world: &mut World)
        requires
            old(self).wf(),
        ensures
            final(self).wf(),
            final(self)@ == Seq::<CommandKind>::empty(),
            no_spawns(old(self)@) ==> final(world)@ == after_despawns(old(world)@, old(self)@),
            no_spawns(old(self)@) ==> forall|b: u64|
                !named(old(self)@, b) ==> #[trigger] final(world).component_count(b) == old(world).component_count(b),
            no_spawns(old(self)@) ==> forall|b: u64|
                last_is_insert(old(self)@, b) && final(world)@.contains(b) ==> #[trigger] final(world).component_count(b) >= 1,
            commands_applied(old(self)@, *old(world), *final(world)),
    {
        let mut queue: Vec<Queued> = Vec::new();
        std::mem::swap(&mut queue, &mut self.queue);
        let ghost kinds = self.kinds@;
        let ghost orig = queue@;
        self.kinds = Ghost(Seq::empty());
        let ghost w0 = *world;
        let n = queue.len();
        let mut i: usize = 0;
        while queue.len() > 0
            invariant
                n == orig.len(),
                kinds.len() == n,
                i <= n,
                queue@ == orig.subrange(i as int, n as int),
                forall|j: int| 0 <= j < n ==> kinds[j] == kind_of(#[trigger] orig[j]),
                no_spawns(kinds) ==> world@ == after_despawns(w0@, kinds.take(i as int)),
                no_spawns(kinds) ==> forall|b: u64|
                    !named(kinds.take(i as int), b) ==> #[trigger] world.component_count(b)
                        == w0.component_count(b),
                no_spawns(kinds) ==> forall|b: u64|
                    last_is_insert(kinds.take(i as int), b) && world@.contains(b)
                        ==> #[trigger] world.component_count(b) >= 1,
                forall|b: u64|
                    despawned(after_last_spawn(kinds.take(i as int)), b) ==> !(
                    #[trigger] world@.contains(b)),
                forall|b: u64|
                    last_is_insert(after_last_spawn(kinds.take(i as int)), b) && world@.contains(b)
                        ==> #[trigger] world.component_count(b) >= 1,
            decreases queue.len(),
        {
            let ghost before = *world;
            let ghost k = kinds[i as int];
            proof {
                assert(kinds.take(i + 1).drop_last() =~= kinds.take(i as int));
                assert(kinds.take(i + 1).last() == k);
                assert(queue@[0] == orig[i as int]);
            }
            let q = queue.remove(0);
            match q {
                Queued::Despawn(e) => {
                    let _ = world.despawn(e);
                },
                Queued::Spawn(c) => {
                    c.inner.apply(world);
                },
                Queued::Insert(e, c) => {
                    c.inner.apply(e, world);
                },
                Queued::Remove(e, c) => {
                    c.inner.apply(e, world);
                },
            }
            proof {
                let pre = after_last_spawn(kinds.take(i as int));
                let post = after_last_spawn(kinds.take(i + 1));
                if !(k is Spawn) {
                    assert(post == pre.push(k));
                    assert(post.drop_last() =~= pre);
                    assert forall|b: u64| despawned(post, b) implies !(#[trigger] world@.contains(b)) by {
                        if !(k is Despawn && names(k, b)) {
                            assert(despawned(pre, b));
                            assert(!before@.contains(b));
                        }
                    }
                    assert forall|b: u64|
                        last_is_insert(post, b) && world@.contains(b) implies #[trigger] world.component_count(b)
                            >= 1 by {
                        if !names(k, b) {
                            assert(last_is_insert(pre, b));
                            assert(before@.contains(b));
                        }
                    }
                } else {
                    assert(post =~= Seq::<CommandKind>::empty());
                    assert forall|b: u64| despawned(post, b) implies !(#[trigger] world@.contains(b)) by {}
                    assert forall|b: u64|
                        last_is_insert(post, b) && world@.contains(b) implies #[trigger] world.component_count(b)
                            >= 1 by {}
                }
                if no_spawns(kinds) {
                    assert(!(kinds[i as int] is Spawn));
                    assert forall|b: u64|
                        !named(kinds.take(i + 1), b) implies #[trigger] world.component_count(b)
                            == w0.component_count(b) by {
                        assert(!named(kinds.take(i as int), b));
                        assert(!names(k, b));
                        assert(before.component_count(b) == w0.component_count(b));
                    }
                    assert forall|b: u64|
                        last_is_insert(kinds.take(i + 1), b) && world@.contains(b)
                            implies #[trigger] world.component_count(b) >= 1 by {
                        if !names(k, b) {
                            assert(last_is_insert(kinds.take(i as int), b));
                            assert(before@.contains(b));
                        }
                    }
                }
            }
            i = i + 1;
        }
        proof {
            assert(kinds.take(n as int) =~= kinds);
        }
    }
}

impl Default for Commands {
    /// An empty command queue.
    fn default() -> (c: Self)
        ensures
            c.wf(),
            c@ == Seq::<CommandKind>::empty(),
    {
        Self::new()
    }
}

} // verus!
