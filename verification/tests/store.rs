use arena_scene::entity::{Color, Component, Entity, Tag, Tags, Transform, Visual};
use arena_scene::error::SceneError;
use arena_scene::rotation::Rotation;
use arena_scene::scalar::ONE;
use arena_scene::store::{EntityId, Store};
use arena_scene::vector::Vec3;

#[test]
fn tag_set_operations() {
    let none = Tags::empty();
    assert!(none.is_empty());
    assert!(!none.has(Tag::Subject));
    assert!(!none.has(Tag::FacesViewpoint));

    let subject = none.with(Tag::Subject);
    assert!(subject.has(Tag::Subject));
    assert!(!subject.has(Tag::FacesViewpoint));
    assert!(!subject.is_empty());
    assert_eq!(subject.with(Tag::Subject), subject);

    let facing = none.with(Tag::FacesViewpoint);
    assert!(!facing.has(Tag::Subject));
    assert!(facing.has(Tag::FacesViewpoint));
    assert_ne!(facing, subject);

    let both = subject.with(Tag::FacesViewpoint);
    assert!(both.has(Tag::Subject) && both.has(Tag::FacesViewpoint));
    assert_eq!(both, facing.with(Tag::Subject));
}

#[test]
fn new_store_is_empty() {
    let store = Store::new();
    assert_eq!(store.len(), 0);
    assert_eq!(store.entity(EntityId { index: 0 }), None);
    assert_eq!(store.viewpoint(), None);
    assert_eq!(store.next_tagged(0, Tag::Subject), None);
    assert!(store.query(Tag::Subject).is_empty());
}

#[test]
fn created_entity_is_blank() {
    let mut store = Store::new();
    let first = store.create_entity();
    let second = store.create_entity();
    assert_eq!(first, EntityId { index: 0 });
    assert_eq!(second, EntityId { index: 1 });
    assert_eq!(store.len(), 2);
    let blank = Entity {
        transform: Transform { position: Vec3::zero(), rotation: Rotation::identity() },
        tags: Tags::empty(),
        visual: Visual::Nothing,
    };
    assert_eq!(store.entity(first), Some(blank));
    assert_eq!(store.entity(second), Some(blank));
    assert_eq!(store.entity(EntityId { index: 2 }), None);
}

#[test]
fn attach_replaces_and_adds() {
    let mut store = Store::new();
    let a = store.create_entity();
    let b = store.create_entity();
    let pose = Transform::at(Vec3::from_units(1, 2, 3));
    assert_eq!(store.attach(b, Component::Transform(pose)), Ok(()));
    assert_eq!(store.attach(b, Component::Tag(Tag::Subject)), Ok(()));
    let plane = Visual::Plane { side: ONE, color: Color::Plain };
    assert_eq!(store.attach(b, Component::Visual(plane)), Ok(()));

    let entity = store.entity(b).unwrap();
    assert_eq!(entity.transform, pose);
    assert_eq!(entity.tags, Tags::empty().with(Tag::Subject));
    assert_eq!(entity.visual, plane);

    assert_eq!(store.attach(b, Component::Tag(Tag::FacesViewpoint)), Ok(()));
    assert_eq!(store.attach(b, Component::Tag(Tag::Subject)), Ok(()));
    let entity = store.entity(b).unwrap();
    assert!(entity.tags.has(Tag::Subject) && entity.tags.has(Tag::FacesViewpoint));
    assert_eq!(entity.transform, pose);

    // The other entity is untouched.
    let other = store.entity(a).unwrap();
    assert_eq!(other.transform, Transform::at(Vec3::zero()));
    assert!(other.tags.is_empty());
    assert_eq!(other.visual, Visual::Nothing);
    assert_eq!(store.len(), 2);
}

#[test]
fn attach_to_unknown_entity_fails() {
    let mut store = Store::new();
    let id = store.create_entity();
    let missing = EntityId { index: 1 };
    assert_eq!(
        store.attach(missing, Component::Tag(Tag::Subject)),
        Err(SceneError::UnknownEntity)
    );
    assert_eq!(
        store.attach(missing, Component::Visual(Visual::Viewpoint)),
        Err(SceneError::UnknownEntity)
    );
    assert_eq!(
        store.attach(EntityId { index: usize::MAX }, Component::Transform(Transform::at(Vec3::zero()))),
        Err(SceneError::UnknownEntity)
    );
    assert_eq!(store.len(), 1);
    assert!(store.entity(id).unwrap().tags.is_empty());
}

#[test]
fn attach_rejects_malformed_rotation() {
    let mut store = Store::new();
    let id = store.create_entity();
    let mut bad = Transform::at(Vec3::from_units(1, 1, 1));
    bad.rotation.forward = Vec3 { x: 0, y: 0, z: 2 * ONE };
    assert_eq!(store.attach(id, Component::Transform(bad)), Err(SceneError::MalformedTransform));
    assert_eq!(store.entity(id).unwrap().transform, Transform::at(Vec3::zero()));
    // An unknown entity is reported before the transform is looked at.
    assert_eq!(
        store.attach(EntityId { index: 9 }, Component::Transform(bad)),
        Err(SceneError::UnknownEntity)
    );
}

#[test]
fn set_position_moves_only_the_position() {
    let mut store = Store::new();
    let id = store.create_entity();
    let turned = Transform {
        position: Vec3::zero(),
        rotation: Rotation::facing(&Vec3 { x: ONE, y: 0, z: 0 }),
    };
    assert_eq!(store.attach(id, Component::Transform(turned)), Ok(()));
    assert_eq!(store.set_position(id, Vec3::from_units(5, 1, 0)), Ok(()));
    let entity = store.entity(id).unwrap();
    assert_eq!(entity.transform.position, Vec3::from_units(5, 1, 0));
    assert_eq!(entity.transform.rotation, turned.rotation);
    assert_eq!(
        store.set_position(EntityId { index: 1 }, Vec3::zero()),
        Err(SceneError::UnknownEntity)
    );
    // Any position is accepted.
    assert_eq!(store.set_position(id, Vec3 { x: i64::MAX, y: i64::MIN, z: 0 }), Ok(()));
    assert_eq!(store.entity(id).unwrap().transform.position.x, i64::MAX);
}

#[test]
fn queries_visit_tagged_entities_in_order() {
    let mut store = Store::new();
    for i in 0..6 {
        let id = store.create_entity();
        if i % 2 == 1 {
            store.attach(id, Component::Tag(Tag::FacesViewpoint)).unwrap();
        }
        if i == 4 {
            store.attach(id, Component::Tag(Tag::Subject)).unwrap();
        }
    }
    assert_eq!(
        store.query(Tag::FacesViewpoint),
        vec![EntityId { index: 1 }, EntityId { index: 3 }, EntityId { index: 5 }]
    );
    assert_eq!(store.query(Tag::Subject), vec![EntityId { index: 4 }]);

    assert_eq!(store.next_tagged(0, Tag::FacesViewpoint), Some(EntityId { index: 1 }));
    assert_eq!(store.next_tagged(1, Tag::FacesViewpoint), Some(EntityId { index: 1 }));
    assert_eq!(store.next_tagged(2, Tag::FacesViewpoint), Some(EntityId { index: 3 }));
    assert_eq!(store.next_tagged(4, Tag::FacesViewpoint), Some(EntityId { index: 5 }));
    assert_eq!(store.next_tagged(6, Tag::FacesViewpoint), None);
    assert_eq!(store.next_tagged(usize::MAX, Tag::FacesViewpoint), None);
    assert_eq!(store.next_tagged(5, Tag::Subject), None);

    let mut visited = Vec::new();
    let mut from = 0;
    while let Some(id) = store.next_tagged(from, Tag::FacesViewpoint) {
        visited.push(id);
        from = id.index + 1;
    }
    assert_eq!(visited, store.query(Tag::FacesViewpoint));
}

#[test]
fn first_viewpoint_is_active() {
    let mut store = Store::new();
    let a = store.create_entity();
    let b = store.create_entity();
    let c = store.create_entity();
    assert_eq!(store.viewpoint(), None);
    store.attach(c, Component::Visual(Visual::Viewpoint)).unwrap();
    assert_eq!(store.viewpoint(), Some(c));
    store.attach(b, Component::Visual(Visual::Viewpoint)).unwrap();
    assert_eq!(store.viewpoint(), Some(b));
    store.attach(b, Component::Visual(Visual::Nothing)).unwrap();
    assert_eq!(store.viewpoint(), Some(c));
    assert_ne!(store.viewpoint(), Some(a));
}

#[test]
fn only_a_bad_layout_is_fatal() {
    assert!(SceneError::InvalidLayout.is_fatal());
    assert!(!SceneError::DegenerateFacing.is_fatal());
    assert!(!SceneError::MalformedTransform.is_fatal());
    assert!(!SceneError::UnknownEntity.is_fatal());
}
