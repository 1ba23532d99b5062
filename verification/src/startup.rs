//! What runs once before the first frame: the viewpoint, the arena and the
//! subject are put into the store. The three steps write different
//! entities, so they may run in any order.

use vstd::prelude::*;
use vstd::seq_lib::{lemma_multiset_commutative, to_multiset_build};
use crate::arena::{arena_layout, arena_placements, models_of, Placement, PlacementModel};
use crate::entity::{
    scene_valid, Color, Component, EntityModel, Pose, Tag, Transform, Visual, VisualModel,
};
use crate::error::SceneError;
use crate::rotation::{lemma_look_at_orthonormal, Basis, Rotation};
use crate::scalar::{is_floor_sqrt, lemma_floor_sqrt_is, ONE};
use crate::store::{EntityId, Store};
use crate::vector::{lemma_unit_of_axis, Vec3, Vector};

verus! {

/// Outer side of the arena that the scene is built with: 15 world units.
pub const MAP_UNIT_SIZE: i64 = 15_728_640;

/// Where the viewpoint stands: (10, 13, 0) in world units.
pub open spec fn camera_position() -> Vector {
    Vector { x: 10 * ONE, y: 13 * ONE, z: 0 }
}

/// What the viewpoint looks at: (1, 0, 0) in world units.
pub open spec fn camera_target() -> Vector {
    Vector { x: ONE as int, y: 0, z: 0 }
}

/// The upward direction of the world.
pub open spec fn world_up() -> Vector {
    Vector { x: 0, y: ONE as int, z: 0 }
}

/// How the viewpoint is turned: it looks from its position at its target.
pub open spec fn camera_basis() -> Basis {
    Basis::look_at(camera_position(), camera_target(), world_up())
}

/// The viewpoint entity.
pub open spec fn camera_entity() -> EntityModel {
    EntityModel {
        pose: Pose { position: camera_position(), rotation: camera_basis() },
        tags: Set::empty(),
        visual: VisualModel::Viewpoint,
    }
}

/// Where the subject starts: one world unit above the origin.
pub open spec fn player_position() -> Vector {
    Vector { x: 0, y: ONE as int, z: 0 }
}

/// The subject entity: a horizontal plane of side one world unit that
/// always faces the viewpoint.
pub open spec fn player_entity() -> EntityModel {
    EntityModel {
        pose: Pose { position: player_position(), rotation: Basis::identity() },
        tags: Set::empty().insert(Tag::Subject).insert(Tag::FacesViewpoint),
        visual: VisualModel::Plane { side: ONE as int, color: Color::Plain },
    }
}

/// The entity that stands for a piece of static geometry: at the piece's
/// position, not rotated, and without tags.
pub open spec fn static_entity(placement: PlacementModel) -> EntityModel {
    EntityModel {
        pose: Pose { position: placement.position, rotation: Basis::identity() },
        tags: Set::empty(),
        visual: placement.visual,
    }
}

/// The entities of an arena of outer side `unit_size`, in the order of its
/// placements.
pub open spec fn map_entities(unit_size: int) -> Seq<EntityModel> {
    arena_placements(unit_size).map_values(|p: PlacementModel| static_entity(p))
}

/// The scene after the viewpoint was spawned.
pub open spec fn with_camera(scene: Seq<EntityModel>) -> Seq<EntityModel> {
    scene.push(camera_entity())
}

/// The scene after the arena was spawned.
pub open spec fn with_map(scene: Seq<EntityModel>, unit_size: int) -> Seq<EntityModel> {
    scene + map_entities(unit_size)
}

/// The scene after the subject was spawned.
pub open spec fn with_player(scene: Seq<EntityModel>) -> Seq<EntityModel> {
    scene.push(player_entity())
}

/// The viewpoint's rotation in ticks. Its forward axis is the unit vector
/// from its position to its target, (-9, -13, 0) / sqrt(250) rounded toward
/// zero; its right axis is the world's +Z; and the basis is orthonormal.
pub proof fn lemma_camera_basis()
    ensures
        Basis::can_look_at(camera_position(), camera_target(), world_up()),
        camera_basis() == (Basis {
            right: Vector { x: 0, y: 0, z: 1_048_576 },
            up: Vector { x: -862_130, y: 596_859, z: 0 },
            forward: Vector { x: -596_859, y: -862_130, z: 0 },
        }),
        camera_basis().is_orthonormal(),
{
    let line = camera_target().minus(camera_position());
    assert(line == Vector { x: -9_437_184, y: -13_631_488, z: 0 });
    let n = line.norm_sq();
    assert(n == 274_877_906_944_000) by (nonlinear_arith)
        requires
            n == (-9_437_184int) * (-9_437_184int) + (-13_631_488int) * (-13_631_488int) + 0int
                * 0int,
    ;
    assert(((ONE * ONE) * (line.x * line.x)) / n == 356_241_767_399) by (nonlinear_arith)
        requires
            line.x == -9_437_184,
            n == 274_877_906_944_000,
    ;
    assert(((ONE * ONE) * (line.y * line.y)) / n == 743_269_860_376) by (nonlinear_arith)
        requires
            line.y == -13_631_488,
            n == 274_877_906_944_000,
    ;
    assert(((ONE * ONE) * (line.z * line.z)) / n == 0) by (nonlinear_arith)
        requires
            line.z == 0,
            n == 274_877_906_944_000,
    ;
    assert(is_floor_sqrt(596_859, 356_241_767_399)) by (nonlinear_arith);
    assert(is_floor_sqrt(862_130, 743_269_860_376)) by (nonlinear_arith);
    assert(is_floor_sqrt(0, 0));
    lemma_floor_sqrt_is(596_859, 356_241_767_399);
    lemma_floor_sqrt_is(862_130, 743_269_860_376);
    lemma_floor_sqrt_is(0, 0);
    let forward = line.unit();
    assert(forward == Vector { x: -596_859, y: -862_130, z: 0 });
    let side = world_up().cross(forward);
    assert(side == Vector { x: 0, y: 0, z: 625_852_022_784 }) by (nonlinear_arith)
        requires
            side == world_up().cross(forward),
            forward == (Vector { x: -596_859, y: -862_130, z: 0 }),
            world_up() == (Vector { x: 0, y: 1_048_576, z: 0 }),
    ;
    lemma_unit_of_axis(side.z);
    let right = side.unit();
    assert(side.norm_sq() == side.z * side.z) by (nonlinear_arith)
        requires
            side.x == 0,
            side.y == 0,
            side.norm_sq() == side.x * side.x + side.y * side.y + side.z * side.z,
    ;
    assert(right == Vector { x: 0, y: 0, z: 1_048_576 });
    let lifted = forward.cross(right);
    assert(lifted == Vector { x: -904_008_826_880, y: 625_852_022_784, z: 0 }) by (nonlinear_arith)
        requires
            lifted == forward.cross(right),
            forward == (Vector { x: -596_859, y: -862_130, z: 0 }),
            right == (Vector { x: 0, y: 0, z: 1_048_576 }),
    ;
    assert(lifted.scaled_down() == Vector { x: -862_130, y: 596_859, z: 0 });
    let basis = camera_basis();
    assert(basis.forward == forward);
    assert(basis.right == right);
    assert(basis.up == lifted.scaled_down());
    lemma_look_at_orthonormal(camera_position(), camera_target(), world_up());
}

/// The pose of the viewpoint: at (10, 13, 0), looking at (1, 0, 0) with the
/// world's up as up.
pub fn camera_pose() -> (pose: Transform)
    ensures
        pose@ == (Pose { position: camera_position(), rotation: camera_basis() }),
        pose@.rotation.is_orthonormal(),
{
    let position = Vec3::from_units(10, 13, 0);
    let target = Vec3::from_units(1, 0, 0);
    let up = Vec3::from_units(0, 1, 0);
    proof {
        lemma_camera_basis();
    }
    match Rotation::look_at(&position, &target, &up) {
        Some(rotation) => Transform { position, rotation },
        // Not reached: the construction is defined for these positions.
        None => Transform { position, rotation: Rotation::identity() },
    }
}

/// Spawns the viewpoint and returns its handle. Every call creates a new
/// viewpoint entity; only the first of a store is the active one.
pub fn spawn_camera(store: &mut Store) -> (id: EntityId)
    requires
        old(store).wf(),
    ensures
        final(store).wf(),
        final(store)@ == with_camera(old(store)@),
        id.index == old(store)@.len(),
{
    let pose = camera_pose();
    let id = store.create_entity();
    let placed = store.attach(id, Component::Transform(pose));
    let shown = store.attach(id, Component::Visual(Visual::Viewpoint));
    proof {
        assert(placed is Ok && shown is Ok);
        assert(store@ =~= with_camera(old(store)@));
    }
    id
}

/// Spawns one piece of static geometry as the last entity of the store.
fn spawn_static(store: &mut Store, placement: &Placement)
    requires
        old(store).wf(),
    ensures
        final(store).wf(),
        final(store)@ == old(store)@.push(static_entity(placement@)),
{
    let id = store.create_entity();
    let placed = store.attach(id, Component::Transform(Transform::at(placement.position)));
    let shown = store.attach(id, Component::Visual(placement.visual));
    proof {
        assert(placed is Ok && shown is Ok);
        assert(store@ =~= old(store)@.push(static_entity(placement@)));
    }
}

/// Spawns the arena of outer side `unit_size`: six entities without tags,
/// in the order of the arena's placements.
///
/// Fails with `InvalidLayout`, and spawns nothing, exactly where
/// `unit_size` is not positive.
pub fn spawn_map(store: &mut Store, unit_size: i64) -> (r: Result<(), SceneError>)
    requires
        old(store).wf(),
    ensures
        final(store).wf(),
        match r {
            Ok(_) => unit_size > 0 && final(store)@ == with_map(old(store)@, unit_size as int),
            Err(e) => unit_size <= 0 && e == SceneError::InvalidLayout && final(store)@
                == old(store)@,
        },
{
    let placements = match arena_layout(unit_size) {
        Ok(placements) => placements,
        Err(e) => {
            return Err(e);
        },
    };
    let ghost entities = map_entities(unit_size as int);
    let mut i: usize = 0;
    while i < placements.len()
        invariant
            store.wf(),
            i <= placements.len(),
            models_of(placements@) == arena_placements(unit_size as int),
            entities == map_entities(unit_size as int),
            store@ == old(store)@ + entities.subrange(0, i as int),
        decreases placements.len() - i,
    {
        let ghost before = store@;
        spawn_static(store, &placements[i]);
        proof {
            assert(models_of(placements@)[i as int] == placements@[i as int]@);
            assert(entities[i as int] == static_entity(placements@[i as int]@));
            assert(entities.subrange(0, i + 1) =~= entities.subrange(0, i as int).push(
                entities[i as int],
            ));
            assert(store@ =~= old(store)@ + entities.subrange(0, i + 1));
        }
        i += 1;
    }
    proof {
        assert(models_of(placements@).len() == placements@.len());
        assert(entities.subrange(0, i as int) =~= entities);
    }
    Ok(())
}

/// Spawns the subject and returns its handle. Every call creates a new
/// subject entity: a scene is meant to call it once.
pub fn spawn_player(store: &mut Store) -> (id: EntityId)
    requires
        old(store).wf(),
    ensures
        final(store).wf(),
        final(store)@ == with_player(old(store)@),
        id.index == old(store)@.len(),
{
    let id = store.create_entity();
    let placed = store.attach(id, Component::Transform(Transform::at(Vec3::from_units(0, 1, 0))));
    let shown = store.attach(
        id,
        Component::Visual(Visual::Plane { side: ONE, color: Color::Plain }),
    );
    let subject = store.attach(id, Component::Tag(Tag::Subject));
    let facing = store.attach(id, Component::Tag(Tag::FacesViewpoint));
    proof {
        assert(placed is Ok && shown is Ok && subject is Ok && facing is Ok);
        assert(store@ =~= with_player(old(store)@));
    }
    id
}

/// Builds the scene that the first frame starts from: the viewpoint, the
/// arena of outer side `unit_size` and the subject, spawned in this order
/// into an empty store.
///
/// Fails with `InvalidLayout` exactly where `unit_size` is not positive.
pub fn bootstrap(unit_size: i64) -> (r: Result<Store, SceneError>)
    ensures
        match r {
            Ok(store) => unit_size > 0 && store.wf() && store@ == with_player(
                with_map(with_camera(Seq::empty()), unit_size as int),
            ),
            Err(e) => unit_size <= 0 && e == SceneError::InvalidLayout,
        },
{
    let mut store = Store::new();
    let camera = spawn_camera(&mut store);
    match spawn_map(&mut store, unit_size) {
        Ok(_) => {},
        Err(e) => {
            return Err(e);
        },
    }
    let player = spawn_player(&mut store);
    Ok(store)
}

/// The three startup steps may run in any order: whichever of the six
/// orders is taken, the scene ends with the same entities, each as often.
pub proof fn lemma_startup_order_independent(scene: Seq<EntityModel>, unit_size: int)
    ensures
        ({
            let reference = with_player(with_map(with_camera(scene), unit_size)).to_multiset();
            &&& with_map(with_player(with_camera(scene)), unit_size).to_multiset() == reference
            &&& with_player(with_camera(with_map(scene, unit_size))).to_multiset() == reference
            &&& with_camera(with_player(with_map(scene, unit_size))).to_multiset() == reference
            &&& with_map(with_camera(with_player(scene)), unit_size).to_multiset() == reference
            &&& with_camera(with_map(with_player(scene), unit_size)).to_multiset() == reference
        }),
{
    broadcast use vstd::multiset::group_multiset_axioms;

    let map = map_entities(unit_size);
    let camera = camera_entity();
    let player = player_entity();
    to_multiset_build(scene, camera);
    to_multiset_build(scene, player);
    lemma_multiset_commutative(scene, map);
    to_multiset_build(scene.push(camera), player);
    to_multiset_build(scene.push(player), camera);
    lemma_multiset_commutative(scene.push(camera), map);
    lemma_multiset_commutative(scene.push(player), map);
    to_multiset_build(scene + map, camera);
    to_multiset_build(scene + map, player);
    to_multiset_build(scene.push(camera) + map, player);
    to_multiset_build(scene.push(player) + map, camera);
    lemma_multiset_commutative(scene.push(camera).push(player), map);
    lemma_multiset_commutative(scene.push(player).push(camera), map);
    to_multiset_build((scene + map).push(camera), player);
    to_multiset_build((scene + map).push(player), camera);
    let reference = with_player(with_map(with_camera(scene), unit_size)).to_multiset();
    assert(with_map(with_player(with_camera(scene)), unit_size).to_multiset() =~= reference);
    assert(with_player(with_camera(with_map(scene, unit_size))).to_multiset() =~= reference);
    assert(with_camera(with_player(with_map(scene, unit_size))).to_multiset() =~= reference);
    assert(with_map(with_camera(with_player(scene)), unit_size).to_multiset() =~= reference);
    assert(with_camera(with_map(with_player(scene), unit_size)).to_multiset() =~= reference);
}

/// Each startup step keeps every rotation of the scene normalised.
pub proof fn lemma_startup_keeps_valid(scene: Seq<EntityModel>, unit_size: int)
    requires
        scene_valid(scene),
    ensures
        scene_valid(with_camera(scene)),
        scene_valid(with_map(scene, unit_size)),
        scene_valid(with_player(scene)),
{
    lemma_camera_basis();
}

} // verus!
