use veltrix::animation::tween::Easing;
use veltrix::audio::bus::AudioBusName;
use veltrix::audio::clip::AudioClip;
use veltrix::ecs::entity::{Entity, EntityExt};
use veltrix::ecs::system::SystemStage;
use veltrix::math::utils::random_range_i;
use veltrix::physics::collision::{CollisionEvent, CollisionEvents, CollisionState};
use veltrix::platform::filesystem::{project_dir_names, FileSystem};

fn names(id: &str) -> (String, String, String) {
    project_dir_names(id)
}

#[test]
fn app_id_splits_into_three_names() {
    assert_eq!(names("com.example.game"), ("com".into(), "example".into(), "game".into()));
    assert_eq!(names("a.b.c.d"), ("a".into(), "b".into(), "c".into()));
    assert_eq!(names("a..c"), ("a".into(), "".into(), "c".into()));
    assert_eq!(names("a.b"), ("".into(), "".into(), "a.b".into()));
    assert_eq!(names("game"), ("".into(), "".into(), "game".into()));
    assert_eq!(names(""), ("".into(), "".into(), "".into()));
}

#[test]
fn filesystem_resolves_consistently() {
    let fs = FileSystem::new("com.example.game");
    assert_eq!(fs.user_data_dir().is_some(), fs.cache_dir().is_some());
}

#[test]
fn random_integers_stay_in_range() {
    for _ in 0..200 {
        let v = random_range_i(-3, 4);
        assert!((-3..=4).contains(&v));
    }
    assert_eq!(random_range_i(9, 9), 9);
}

#[test]
fn collision_events_buffer_in_order() {
    let mut events = CollisionEvents::new();
    let e = Entity::null();
    let enter = CollisionEvent { state: CollisionState::Enter, entity_a: e, entity_b: e };
    let exit = CollisionEvent { state: CollisionState::Exit, ..enter };
    events.push(enter);
    events.push(exit);
    assert_eq!(events.events, vec![enter, exit]);
    events.clear();
    assert!(events.events.is_empty());
}

#[test]
fn audio_clip_keeps_checked_bytes() {
    let clip = AudioClip::from_checked_bytes(&[1, 2, 3], true).unwrap();
    assert_eq!(clip.data(), &[1, 2, 3]);
    assert!(AudioClip::from_checked_bytes(&[1, 2, 3], false).is_none());
}

#[test]
fn plain_enums_compare() {
    assert_ne!(Easing::Linear, Easing::Bounce);
    assert_ne!(SystemStage::Update, SystemStage::Render);
    assert_eq!(AudioBusName::Sfx, AudioBusName::Sfx);
}

#[test]
fn crash_report_names_location_and_message() {
    assert_eq!(
        veltrix::engine_core::crash::crash_report("src/main.rs:3:5", "boom"),
        "Veltrix Engine Panic!\n\nLocation: src/main.rs:3:5\nMessage: boom"
    );
}
