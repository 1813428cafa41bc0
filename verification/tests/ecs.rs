use veltrix::ecs::commands::Commands;
use veltrix::ecs::entity::{Entity, EntityExt};
use veltrix::ecs::resources::Resources;
use veltrix::ecs::storage::ComponentStorage;
use veltrix::ecs::system::{SystemScheduler, SystemStage};
use veltrix::ecs::world::World;

struct Time {
    dt: f32,
}

#[test]
fn resources_insert_and_get() {
    let mut r = Resources::new();
    r.insert(Time { dt: 0.1 });

    let t = r.get::<Time>().unwrap();
    assert_eq!(t.dt, 0.1);
}

#[test]
fn get_mut_modifies() {
    let mut r = Resources::new();
    r.insert(Time { dt: 0.1 });

    r.get_mut::<Time>().unwrap().dt = 0.5;

    assert_eq!(r.get::<Time>().unwrap().dt, 0.5);
}

#[test]
fn remove_deletes() {
    let mut r = Resources::new();
    r.insert(Time { dt: 0.1 });

    assert!(r.contains::<Time>());
    r.remove::<Time>();
    assert!(!r.contains::<Time>());
}

#[test]
fn storage_insert_and_get() {
    let mut storage = ComponentStorage::<u32>::new();
    let e1 = Entity::null();
    storage.insert(e1, 42);
    assert_eq!(storage.get(e1), Some(&42));
}

#[test]
fn remove_shifts_dense_array() {
    let mut storage = ComponentStorage::<u32>::new();
    let e1 = Entity::null();

    storage.insert(e1, 10);
    let val = storage.remove(e1);
    assert_eq!(val, Some(10));
    assert_eq!(storage.get(e1), None);
}

#[test]
fn scheduler_runs_system() {
    let mut scheduler = SystemScheduler::new();
    let mut world = World::new();
    let mut res = Resources::new();

    res.insert(0_u32);

    scheduler.add_system(SystemStage::Update, "AddOne", |_, r| {
        *r.get_mut::<u32>().unwrap() += 1;
    });

    assert_eq!(*res.get::<u32>().unwrap(), 0);
    scheduler.run_stage(SystemStage::Update, &mut world, &mut res);
    assert_eq!(*res.get::<u32>().unwrap(), 1);

    scheduler.run_stage(SystemStage::FixedUpdate, &mut world, &mut res);
    assert_eq!(*res.get::<u32>().unwrap(), 1);
}

#[test]
fn spawn_and_despawn() {
    let mut world = World::new();
    let e = world.spawn();
    assert!(world.entities().len() == 1);
    assert!(world.despawn(e));
    assert!(world.entities().len() == 0);
}

#[test]
fn component_insert_and_get() {
    let mut world = World::new();
    let e = world.spawn();
    world.insert(e, 42_u32);
    assert_eq!(*world.get::<u32>(e).unwrap(), 42);
}

#[test]
fn component_remove() {
    let mut world = World::new();
    let e = world.spawn();
    world.insert(e, 10_i32);
    let removed = world.remove::<i32>(e);
    assert_eq!(removed, Some(10));
    assert!(world.get::<i32>(e).is_none());
}

#[test]
fn commands_apply_defer_spawn_insert() {
    let mut commands = Commands::new();
    let mut world = World::new();

    commands.spawn(|e, w| {
        w.insert(e, 100_u32);
    });

    assert_eq!(world.entities().len(), 0);

    commands.apply(&mut world);

    assert_eq!(world.entities().len(), 1);
    let e = world.entities()[0];
    assert_eq!(world.get::<u32>(e), Some(&100_u32));
}

#[test]
fn despawn_deferred() {
    let mut commands = Commands::new();
    let mut world = World::new();
    let e = world.spawn();

    commands.despawn(e);
    assert_eq!(world.entities().len(), 1);

    commands.apply(&mut world);
    assert_eq!(world.entities().len(), 0);
}
