use arena_scene::entity::{Component, Tag, Transform, Visual};
use arena_scene::error::SceneError;
use arena_scene::facing::{face_camera, face_entity_at, face_toward, FrameReport};
use arena_scene::rotation::{Rotation, ROTATION_EPSILON};
use arena_scene::scalar::{ONE, WORLD_LIMIT};
use arena_scene::startup::{bootstrap, spawn_camera, spawn_player, MAP_UNIT_SIZE};
use arena_scene::store::{EntityId, Store};
use arena_scene::vector::Vec3;

fn units(ticks: i64) -> f64 {
    ticks as f64 / ONE as f64
}

fn report(turned: usize, settled: usize, degenerate: usize, malformed: usize) -> FrameReport {
    FrameReport { turned, settled, degenerate, malformed }
}

#[test]
fn entity_turns_toward_positive_x() {
    let mut transform = Transform::at(Vec3::from_units(0, 1, 0));
    let viewpoint = Vec3::from_units(5, 1, 0);
    assert_eq!(face_toward(&mut transform, &viewpoint), Ok(true));
    let rotation = transform.rotation;
    assert_eq!(rotation.forward, Vec3 { x: ONE, y: 0, z: 0 });
    assert!((units(rotation.forward.x) - 1.0).abs() < 1e-6);
    // No pitch and no roll: the up axis is the world's, the others are level.
    assert_eq!(rotation.up, Vec3 { x: 0, y: ONE, z: 0 });
    assert_eq!(rotation.right.y, 0);
    assert_eq!(rotation.forward.y, 0);
    assert_eq!(rotation.right, Vec3 { x: 0, y: 0, z: -ONE });
    assert_eq!(transform.position, Vec3::from_units(0, 1, 0));
    assert!(rotation.is_orthonormal());
}

#[test]
fn height_difference_adds_no_pitch() {
    let mut transform = Transform::at(Vec3::from_units(0, 1, 0));
    let viewpoint = Vec3::from_units(10, 13, 0);
    assert_eq!(face_toward(&mut transform, &viewpoint), Ok(true));
    assert_eq!(transform.rotation, Rotation::facing(&Vec3 { x: ONE, y: 0, z: 0 }));
}

#[test]
fn entity_turns_toward_a_diagonal() {
    let mut transform = Transform::at(Vec3::from_units(1, 0, 1));
    let viewpoint = Vec3::from_units(4, 7, -3);
    assert_eq!(face_toward(&mut transform, &viewpoint), Ok(true));
    // The heading is (3, 0, -4): three fifths and four fifths of a unit.
    assert_eq!(transform.rotation.forward, Vec3 { x: 629_145, y: 0, z: -838_860 });
    assert_eq!(transform.rotation.right, Vec3 { x: -838_860, y: 0, z: -629_145 });
    assert_eq!(transform.rotation.up, Vec3 { x: 0, y: ONE, z: 0 });
    let yaw = units(transform.rotation.forward.x).atan2(units(transform.rotation.forward.z));
    assert!((yaw - 3.0_f64.atan2(-4.0)).abs() < 1e-5);
}

#[test]
fn second_update_changes_nothing() {
    let mut transform = Transform::at(Vec3::from_units(0, 1, 0));
    let viewpoint = Vec3::from_units(5, 1, 2);
    assert_eq!(face_toward(&mut transform, &viewpoint), Ok(true));
    let after_first = transform;
    assert_eq!(face_toward(&mut transform, &viewpoint), Ok(false));
    assert_eq!(transform, after_first);
    assert_eq!(face_toward(&mut transform, &viewpoint), Ok(false));
    assert_eq!(transform, after_first);
}

#[test]
fn entity_at_viewpoint_keeps_rotation() {
    let start = Rotation::facing(&Vec3 { x: 629_145, y: 0, z: 838_860 });
    let mut transform = Transform { position: Vec3::from_units(2, 1, 3), rotation: start };
    // Exactly the same position.
    assert_eq!(
        face_toward(&mut transform, &Vec3::from_units(2, 1, 3)),
        Err(SceneError::DegenerateFacing)
    );
    assert_eq!(transform.rotation, start);
    // The same horizontal position at another height.
    assert_eq!(
        face_toward(&mut transform, &Vec3::from_units(2, 9, 3)),
        Err(SceneError::DegenerateFacing)
    );
    assert_eq!(transform, Transform { position: Vec3::from_units(2, 1, 3), rotation: start });
}

#[test]
fn one_tick_apart_is_enough_to_face() {
    let mut transform = Transform::at(Vec3::zero());
    assert_eq!(face_toward(&mut transform, &Vec3 { x: -1, y: 0, z: 0 }), Ok(true));
    assert_eq!(transform.rotation.forward, Vec3 { x: -ONE, y: 0, z: 0 });
}

#[test]
fn malformed_positions_are_skipped() {
    let start = Rotation::identity();
    let outside = Vec3 { x: WORLD_LIMIT + 1, y: 0, z: 0 };
    let mut transform = Transform { position: outside, rotation: start };
    assert_eq!(
        face_toward(&mut transform, &Vec3::from_units(1, 0, 0)),
        Err(SceneError::MalformedTransform)
    );
    assert_eq!(transform, Transform { position: outside, rotation: start });

    let mut transform = Transform::at(Vec3::zero());
    assert_eq!(face_toward(&mut transform, &outside), Err(SceneError::MalformedTransform));
    assert_eq!(
        face_toward(&mut transform, &Vec3 { x: 0, y: i64::MIN, z: 0 }),
        Err(SceneError::MalformedTransform)
    );
    assert_eq!(transform, Transform::at(Vec3::zero()));

    // The edge of the world is still inside.
    let edge = Vec3 { x: WORLD_LIMIT, y: 0, z: -WORLD_LIMIT };
    let mut transform = Transform::at(Vec3 { x: -WORLD_LIMIT, y: 0, z: WORLD_LIMIT });
    assert_eq!(face_toward(&mut transform, &edge), Ok(true));
    assert_eq!(transform.rotation.forward, Vec3 { x: 741_455, y: 0, z: -741_455 });
}

#[test]
fn malformed_rotation_is_skipped() {
    let mut bad = Rotation::identity();
    bad.up = Vec3 { x: 0, y: 3 * ONE, z: 0 };
    let mut transform = Transform { position: Vec3::zero(), rotation: bad };
    assert_eq!(
        face_toward(&mut transform, &Vec3::from_units(1, 0, 0)),
        Err(SceneError::MalformedTransform)
    );
    assert_eq!(transform.rotation, bad);
}

#[test]
fn malformed_is_reported_before_degenerate() {
    let outside = Vec3 { x: WORLD_LIMIT + 1, y: 0, z: 0 };
    let mut transform = Transform::at(outside);
    assert_eq!(face_toward(&mut transform, &outside), Err(SceneError::MalformedTransform));
}

#[test]
fn small_deviation_is_not_written_back() {
    let target = Rotation::facing(&Vec3 { x: ONE, y: 0, z: 0 });
    // Turned away from +X by a few ticks: within the epsilon of the target.
    let near = Rotation::facing(&Vec3 { x: ONE - 1, y: 0, z: ROTATION_EPSILON });
    assert!(near.is_orthonormal());
    assert_ne!(near, target);
    let mut transform = Transform { position: Vec3::from_units(0, 1, 0), rotation: near };
    let viewpoint = Vec3::from_units(5, 1, 0);
    assert_eq!(face_toward(&mut transform, &viewpoint), Ok(false));
    assert_eq!(transform.rotation, near);

    // One tick more is beyond it.
    let far = Rotation::facing(&Vec3 { x: ONE - 1, y: 0, z: ROTATION_EPSILON + 1 });
    assert!(far.is_orthonormal());
    let mut transform = Transform { position: Vec3::from_units(0, 1, 0), rotation: far };
    assert_eq!(face_toward(&mut transform, &viewpoint), Ok(true));
    assert_eq!(transform.rotation, target);
}

#[test]
fn update_turns_the_subject_toward_the_camera() {
    let mut store = bootstrap(MAP_UNIT_SIZE).unwrap();
    let before: Vec<_> =
        (0..store.len()).map(|index| store.entity(EntityId { index }).unwrap()).collect();
    assert_eq!(face_camera(&mut store), Some(report(1, 0, 0, 0)));
    for (index, old) in before.iter().enumerate() {
        let new = store.entity(EntityId { index }).unwrap();
        assert_eq!(new.transform.position, old.transform.position);
        assert_eq!(new.tags, old.tags);
        assert_eq!(new.visual, old.visual);
        if index == 7 {
            // The camera stands at (10, 13, 0), the subject at (0, 1, 0).
            assert_eq!(new.transform.rotation, Rotation::facing(&Vec3 { x: ONE, y: 0, z: 0 }));
        } else {
            assert_eq!(new.transform.rotation, old.transform.rotation);
        }
    }
}

#[test]
fn update_is_idempotent() {
    let mut store = bootstrap(MAP_UNIT_SIZE).unwrap();
    store.set_position(EntityId { index: 0 }, Vec3::from_units(5, 1, 3)).unwrap();
    assert_eq!(face_camera(&mut store), Some(report(1, 0, 0, 0)));
    let after_first: Vec<_> =
        (0..store.len()).map(|index| store.entity(EntityId { index }).unwrap()).collect();
    assert_eq!(face_camera(&mut store), Some(report(0, 1, 0, 0)));
    let after_second: Vec<_> =
        (0..store.len()).map(|index| store.entity(EntityId { index }).unwrap()).collect();
    assert_eq!(after_first, after_second);
}

#[test]
fn update_follows_a_moved_viewpoint() {
    let mut store = bootstrap(MAP_UNIT_SIZE).unwrap();
    let camera = store.viewpoint().unwrap();
    let subject = store.query(Tag::Subject)[0];
    face_camera(&mut store);
    store.set_position(camera, Vec3::from_units(5, 1, 0)).unwrap();
    // Still along +X of the subject: nothing to do.
    assert_eq!(face_camera(&mut store), Some(report(0, 1, 0, 0)));
    store.set_position(camera, Vec3::from_units(0, 1, -5)).unwrap();
    assert_eq!(face_camera(&mut store), Some(report(1, 0, 0, 0)));
    assert_eq!(
        store.entity(subject).unwrap().transform.rotation.forward,
        Vec3 { x: 0, y: 0, z: -ONE }
    );
    store.set_position(subject, Vec3::from_units(3, 1, -5)).unwrap();
    assert_eq!(face_camera(&mut store), Some(report(1, 0, 0, 0)));
    assert_eq!(
        store.entity(subject).unwrap().transform.rotation.forward,
        Vec3 { x: -ONE, y: 0, z: 0 }
    );
}

#[test]
fn update_without_viewpoint_does_nothing() {
    let mut store = Store::new();
    let subject = spawn_player(&mut store);
    let before = store.entity(subject);
    assert_eq!(face_camera(&mut store), None);
    assert_eq!(store.entity(subject), before);
    let mut empty = Store::new();
    assert_eq!(face_camera(&mut empty), None);
}

#[test]
fn update_counts_every_outcome() {
    let mut store = Store::new();
    let camera = spawn_camera(&mut store);
    store.set_position(camera, Vec3::from_units(0, 5, 0)).unwrap();
    // Turned.
    let a = spawn_player(&mut store);
    store.set_position(a, Vec3::from_units(-3, 0, 0)).unwrap();
    // Settled: it looks along +Z already.
    let b = spawn_player(&mut store);
    store.set_position(b, Vec3::from_units(0, 0, -3)).unwrap();
    // Degenerate: right below the camera.
    let c = spawn_player(&mut store);
    store.set_position(c, Vec3::from_units(0, 1, 0)).unwrap();
    // Malformed: outside the world.
    let d = spawn_player(&mut store);
    store.set_position(d, Vec3 { x: 0, y: 0, z: WORLD_LIMIT + 1 }).unwrap();
    // Not tagged: left alone.
    let e = store.create_entity();
    store.attach(e, Component::Transform(Transform::at(Vec3::from_units(7, 0, 7)))).unwrap();
    // The camera itself, tagged: degenerate.
    store.attach(camera, Component::Tag(Tag::FacesViewpoint)).unwrap();

    assert_eq!(face_camera(&mut store), Some(report(1, 1, 2, 1)));
    assert_eq!(
        store.entity(a).unwrap().transform.rotation,
        Rotation::facing(&Vec3 { x: ONE, y: 0, z: 0 })
    );
    for id in [b, c, d, e] {
        assert_eq!(store.entity(id).unwrap().transform.rotation, Rotation::identity());
    }
    assert_eq!(face_camera(&mut store), Some(report(0, 2, 2, 1)));
}

#[test]
fn malformed_viewpoint_skips_every_entity() {
    let mut store = bootstrap(MAP_UNIT_SIZE).unwrap();
    let camera = store.viewpoint().unwrap();
    store.set_position(camera, Vec3 { x: i64::MAX, y: 0, z: 0 }).unwrap();
    assert_eq!(face_camera(&mut store), Some(report(0, 0, 0, 1)));
    assert_eq!(
        store.entity(EntityId { index: 7 }).unwrap().transform.rotation,
        Rotation::identity()
    );
}

#[test]
fn single_entity_update() {
    let mut store = bootstrap(MAP_UNIT_SIZE).unwrap();
    let viewpoint = Vec3::from_units(0, 1, 9);
    let subject = EntityId { index: 7 };
    // The floor is not tagged, and nothing is at index 8.
    assert_eq!(face_entity_at(&mut store, EntityId { index: 1 }, &viewpoint), None);
    assert_eq!(face_entity_at(&mut store, EntityId { index: 8 }, &viewpoint), None);
    assert_eq!(face_entity_at(&mut store, subject, &viewpoint), Some(Ok(false)));
    assert_eq!(
        face_entity_at(&mut store, subject, &Vec3::from_units(0, 1, -9)),
        Some(Ok(true))
    );
    assert_eq!(
        store.entity(subject).unwrap().transform.rotation.forward,
        Vec3 { x: 0, y: 0, z: -ONE }
    );
    assert_eq!(
        face_entity_at(&mut store, subject, &Vec3::from_units(0, 7, 0)),
        Some(Err(SceneError::DegenerateFacing))
    );
    assert_eq!(store.entity(EntityId { index: 1 }).unwrap().visual, {
        let fresh = bootstrap(MAP_UNIT_SIZE).unwrap();
        fresh.entity(EntityId { index: 1 }).unwrap().visual
    });
    assert_ne!(store.entity(EntityId { index: 0 }).unwrap().visual, Visual::Nothing);
}
