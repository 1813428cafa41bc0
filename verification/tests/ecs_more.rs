use veltrix::ecs::commands::{CommandKind, Commands};
use veltrix::ecs::entity::{Entity, EntityExt};
use veltrix::ecs::resources::{ResourceNotFound, Resources};
use veltrix::ecs::storage::ComponentStorage;
use veltrix::ecs::world::World;

fn entity(id: u32, generation: u32) -> Entity {
    Entity::from_bits(((generation as u64) << 32) | id as u64).unwrap()
}

#[test]
fn entity_bits_round_trip() {
    let e = entity(7, 3);
    assert_eq!(e.id(), 7);
    assert_eq!(e.generation(), 3);
    assert_eq!(Entity::from_bits(e.to_bits()), Some(e));
    assert_eq!(Entity::from_bits(5), None);
    assert_eq!(Entity::null().to_bits(), 0);
}

#[test]
fn storage_insert_overwrites() {
    let mut s = ComponentStorage::<&str>::new();
    let e = entity(1, 1);
    s.insert(e, "a");
    s.insert(e, "b");
    assert_eq!(s.get(e), Some(&"b"));
    assert_eq!(s.iter().len(), 1);
}

#[test]
fn storage_swap_remove_keeps_others() {
    let mut s = ComponentStorage::<u32>::new();
    let (a, b, c) = (entity(1, 1), entity(2, 1), entity(3, 1));
    s.insert(a, 10);
    s.insert(b, 20);
    s.insert(c, 30);
    assert_eq!(s.remove(a), Some(10));
    assert_eq!(s.remove(a), None);
    assert!(!s.contains(a));
    assert_eq!(s.get(b), Some(&20));
    assert_eq!(s.get(c), Some(&30));
    let pairs = s.iter();
    assert_eq!(pairs.len(), 2);
    assert_eq!(pairs[0], (c, &30));
    assert_eq!(pairs[1], (b, &20));
}

#[test]
fn storage_appends_new_and_removes_last_in_place() {
    let mut s = ComponentStorage::<u32>::new();
    let (a, b, c) = (entity(1, 1), entity(2, 1), entity(3, 1));
    s.insert(a, 1);
    s.insert(b, 2);
    s.insert(c, 3);
    s.insert(b, 20);
    let order: Vec<Entity> = s.iter().iter().map(|p| p.0).collect();
    assert_eq!(order, vec![a, b, c]);
    assert_eq!(s.remove(c), Some(3));
    let pairs = s.iter();
    assert_eq!(pairs, vec![(a, &1), (b, &20)]);
}

#[test]
fn storage_iter_mut_writes_back() {
    let mut s = ComponentStorage::<u32>::new();
    let (a, b) = (entity(1, 1), entity(2, 1));
    s.insert(a, 1);
    s.insert(b, 2);
    for (_, c) in s.iter_mut() {
        *c *= 10;
    }
    assert_eq!(s.get(a), Some(&10));
    assert_eq!(s.get(b), Some(&20));
    if let Some(c) = s.get_mut(b) {
        *c = 99;
    }
    assert_eq!(s.get(b), Some(&99));
    assert!(s.get_mut(entity(9, 9)).is_none());
}

#[test]
fn world_despawn_twice_fails() {
    let mut world = World::new();
    let a = world.spawn();
    let b = world.spawn();
    assert_ne!(a, b);
    assert!(world.despawn(a));
    assert!(!world.despawn(a));
    assert_eq!(world.entities(), vec![b]);
    assert!(!world.despawn(Entity::null()));
}

#[test]
fn world_components_follow_entities() {
    let mut world = World::new();
    let e = world.spawn();
    world.insert(e, 5_u8);
    *world.get_mut::<u8>(e).unwrap() += 1;
    assert_eq!(world.get::<u8>(e), Some(&6));
    assert!(world.despawn(e));
    assert!(world.get::<u8>(e).is_none());
    world.insert(e, 1_u8);
    assert!(world.get::<u8>(e).is_none());
    assert_eq!(world.remove::<u8>(e), None);
}

#[test]
fn commands_apply_in_order() {
    let mut world = World::new();
    let e = world.spawn();
    let mut commands = Commands::new();
    commands.insert(e, 1_u16);
    commands.remove::<u16>(e);
    commands.insert(e, 2_u16);
    commands.despawn(world.spawn());
    commands.apply(&mut world);
    assert_eq!(world.get::<u16>(e), Some(&2));
    assert_eq!(world.entities(), vec![e]);
    let mut again = Commands::new();
    again.apply(&mut world);
    assert_eq!(world.entities().len(), 1);
    let _ = CommandKind::Spawn;
}

#[test]
fn resources_replace_and_expect() {
    let mut r = Resources::new();
    r.insert(1_i32);
    r.insert(2_i32);
    r.insert("name");
    assert_eq!(r.get::<i32>(), Some(&2));
    assert_eq!(r.expect::<&str>(), Ok(&"name"));
    let err: ResourceNotFound = r.expect::<u64>().unwrap_err();
    assert_eq!(err.key(), std::any::TypeId::of::<u64>());
    *r.expect_mut::<i32>().unwrap() = 5;
    assert_eq!(r.remove::<i32>(), Some(5));
    assert_eq!(r.remove::<i32>(), None);
    assert!(r.get_mut::<i32>().is_none());
}

#[test]
fn defaults_start_empty() {
    let s: ComponentStorage<u8> = Default::default();
    assert!(s.iter().is_empty());
    let w = World::default();
    assert!(w.entities().is_empty());
    let c = Commands::default();
    let _ = c;
    let r = Resources::default();
    assert!(!r.contains::<u8>());
    let bus = veltrix::engine_core::event::EventBus::default();
    assert_eq!(bus.pending_count(), 0);
    let ev = veltrix::physics::collision::CollisionEvents::default();
    assert!(ev.events.is_empty());
    let im = veltrix::input::InputManager::default();
    assert!(!im.action_pressed("jump"));
    let sched = veltrix::ecs::system::SystemScheduler::default();
    let _ = sched;
}

#[test]
fn queued_changes_apply_to_their_entities() {
    let mut world = World::new();
    let a = world.spawn();
    let b = world.spawn();
    let mut cmds = Commands::new();
    cmds.insert(a, 1_u32);
    cmds.insert(b, 2_u32);
    cmds.remove::<u32>(b);
    cmds.apply(&mut world);
    assert_eq!(world.get::<u32>(a), Some(&1));
    assert_eq!(world.get::<u32>(b), None);
}

#[test]
fn null_entity_changes_keep_reservations() {
    let mut world = World::new();
    let reserved = world.inner_mut().reserve_entity();
    assert!(!world.despawn(Entity::null()));
    assert_eq!(world.entities().len(), 0);
    assert!(world.inner_mut().contains(reserved));
}
