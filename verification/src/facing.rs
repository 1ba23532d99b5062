//! The orientation update: on every frame each entity tagged
//! `FacesViewpoint` is turned about the vertical axis so that its forward
//! axis points at the viewpoint.

use vstd::prelude::*;
use crate::entity::{scene_valid, EntityModel, Pose, Tag, Transform, VisualModel};
use crate::error::SceneError;
use crate::rotation::{lemma_facing_orthonormal, Basis, Rotation, ROTATION_EPSILON};
use crate::scalar::ONE;
use crate::store::{
    is_first_viewpoint, lemma_no_viewpoint, lemma_some_viewpoint, lemma_viewpoint_is, viewpoint_of,
    EntityId, Store,
};
use crate::vector::{lemma_unit_is_parallel, lemma_unit_of_axis, reach, Vec3, Vector};

verus! {

/// The horizontal direction from `position` to `viewpoint`, not normalised.
pub open spec fn heading(position: Vector, viewpoint: Vector) -> Vector {
    viewpoint.minus(position).horizontal()
}

/// The pose cannot be worked with: the entity or the viewpoint lies outside
/// the world, or the entity's rotation is not normalised.
pub open spec fn is_malformed(pose: Pose, viewpoint: Vector) -> bool {
    !pose.position.in_world() || !viewpoint.in_world() || !pose.rotation.is_orthonormal()
}

/// The entity and the viewpoint coincide in the horizontal plane.
pub open spec fn is_degenerate(position: Vector, viewpoint: Vector) -> bool {
    heading(position, viewpoint) == Vector::zero()
}

/// The rotation of an entity at `position` that faces `viewpoint`: upright,
/// with the unit vector of the heading as its forward axis.
pub open spec fn facing_basis(position: Vector, viewpoint: Vector) -> Basis {
    Basis::facing(heading(position, viewpoint).unit())
}

/// What one update does to an entity with the pose `pose`: `Ok(true)`
/// where it is turned, `Ok(false)` where it faces the viewpoint already,
/// up to `ROTATION_EPSILON`, and the error where it is skipped.
pub open spec fn facing_outcome(pose: Pose, viewpoint: Vector) -> Result<bool, SceneError> {
    if is_malformed(pose, viewpoint) {
        Err(SceneError::MalformedTransform)
    } else if is_degenerate(pose.position, viewpoint) {
        Err(SceneError::DegenerateFacing)
    } else {
        Ok(
            facing_basis(pose.position, viewpoint).differs_beyond(
                pose.rotation,
                ROTATION_EPSILON as int,
            ),
        )
    }
}

/// The pose after one update: turned to face the viewpoint where
/// `facing_outcome` is `Ok(true)`, and as it was otherwise.
pub open spec fn faced(pose: Pose, viewpoint: Vector) -> Pose {
    if facing_outcome(pose, viewpoint) == Ok::<bool, SceneError>(true) {
        Pose { rotation: facing_basis(pose.position, viewpoint), ..pose }
    } else {
        pose
    }
}

/// What one update does to `entity`; `None` where the entity is not tagged
/// `FacesViewpoint`, and so is left alone.
pub open spec fn outcome_of(entity: EntityModel, viewpoint: Vector) -> Option<
    Result<bool, SceneError>,
> {
    if entity.tags.contains(Tag::FacesViewpoint) {
        Some(facing_outcome(entity.pose, viewpoint))
    } else {
        None
    }
}

/// The entity after one update.
pub open spec fn face_entity(entity: EntityModel, viewpoint: Vector) -> EntityModel {
    if entity.tags.contains(Tag::FacesViewpoint) {
        EntityModel { pose: faced(entity.pose, viewpoint), ..entity }
    } else {
        entity
    }
}

/// The scene after every entity was updated for a viewpoint at
/// `viewpoint`.
pub open spec fn face_each(scene: Seq<EntityModel>, viewpoint: Vector) -> Seq<EntityModel> {
    scene.map_values(|entity: EntityModel| face_entity(entity, viewpoint))
}

/// The scene after one update: every entity is updated for the position
/// that the active viewpoint has at the start; a scene without viewpoint
/// stays as it is.
pub open spec fn face_all(scene: Seq<EntityModel>) -> Seq<EntityModel> {
    match viewpoint_of(scene) {
        Some(i) => face_each(scene, scene[i].pose.position),
        None => scene,
    }
}

/// The number of entities of `scene` to which one update does `outcome`.
pub open spec fn count_outcome(
    scene: Seq<EntityModel>,
    viewpoint: Vector,
    outcome: Result<bool, SceneError>,
) -> nat
    decreases scene.len(),
{
    if scene.len() == 0 {
        0
    } else {
        let rest = count_outcome(scene.drop_last(), viewpoint, outcome);
        if outcome_of(scene.last(), viewpoint) == Some(outcome) {
            rest + 1
        } else {
            rest
        }
    }
}

/// What one update did, for the observer that logs it.
#[derive(Clone, Copy, Debug, PartialEq, Eq, Structural)]
pub struct FrameReport {
    /// Entities that were turned.
    pub turned: usize,
    /// Entities that faced the viewpoint already.
    pub settled: usize,
    /// Entities skipped because they stand where the viewpoint stands.
    pub degenerate: usize,
    /// Entities skipped because a transform was malformed.
    pub malformed: usize,
}

impl FrameReport {
    /// The report counts what one update does to `scene` for a viewpoint at
    /// `viewpoint`.
    pub open spec fn counts(self, scene: Seq<EntityModel>, viewpoint: Vector) -> bool {
        &&& self.turned == count_outcome(scene, viewpoint, Ok(true))
        &&& self.settled == count_outcome(scene, viewpoint, Ok(false))
        &&& self.degenerate == count_outcome(scene, viewpoint, Err(SceneError::DegenerateFacing))
        &&& self.malformed == count_outcome(
            scene,
            viewpoint,
            Err(SceneError::MalformedTransform),
        )
    }
}

/// An entity that is turned faces the viewpoint afterwards: its rotation is
/// normalised and upright (no pitch, no roll), and its forward axis is the
/// unit vector of the horizontal direction to the viewpoint, which points
/// the way of that direction up to rounding: their cross product has no
/// component beyond the reach of the direction, and their dot product is
/// positive.
pub proof fn lemma_faced_points_at_viewpoint(pose: Pose, viewpoint: Vector)
    requires
        facing_outcome(pose, viewpoint) is Ok,
    ensures
        facing_basis(pose.position, viewpoint).is_orthonormal(),
        facing_basis(pose.position, viewpoint).is_upright(),
        facing_basis(pose.position, viewpoint).forward == heading(pose.position, viewpoint).unit(),
        heading(pose.position, viewpoint).cross(
            facing_basis(pose.position, viewpoint).forward,
        ).within(reach(heading(pose.position, viewpoint))),
        heading(pose.position, viewpoint).dot(facing_basis(pose.position, viewpoint).forward) > 0,
        facing_outcome(pose, viewpoint) == Ok::<bool, SceneError>(true) ==> faced(
            pose,
            viewpoint,
        ).rotation == facing_basis(pose.position, viewpoint),
{
    lemma_facing_orthonormal(heading(pose.position, viewpoint));
    lemma_unit_is_parallel(heading(pose.position, viewpoint));
}

/// An entity whose viewpoint lies straight along the world's +X from it
/// faces exactly +X, and one whose viewpoint lies straight along +Z
/// exactly +Z.
pub proof fn lemma_facing_along_axis(position: Vector, viewpoint: Vector)
    requires
        viewpoint.x > position.x && viewpoint.z == position.z || viewpoint.z > position.z
            && viewpoint.x == position.x,
    ensures
        viewpoint.z == position.z ==> facing_basis(position, viewpoint).forward == (Vector {
            x: ONE as int,
            y: 0,
            z: 0,
        }),
        viewpoint.x == position.x ==> facing_basis(position, viewpoint).forward == (Vector {
            x: 0,
            y: 0,
            z: ONE as int,
        }),
{
    let h = heading(position, viewpoint);
    if viewpoint.z == position.z {
        lemma_unit_of_axis(h.x);
        assert(h.norm_sq() == h.x * h.x) by (nonlinear_arith)
            requires
                h.y == 0,
                h.z == 0,
                h.norm_sq() == h.x * h.x + h.y * h.y + h.z * h.z,
        ;
    } else {
        lemma_unit_of_axis(h.z);
        assert(h.norm_sq() == h.z * h.z) by (nonlinear_arith)
            requires
                h.y == 0,
                h.x == 0,
                h.norm_sq() == h.x * h.x + h.y * h.y + h.z * h.z,
        ;
    }
}

/// An entity that stands where the viewpoint stands in the horizontal
/// plane keeps its pose, whatever its height and its rotation.
pub proof fn lemma_degenerate_keeps_pose(pose: Pose, viewpoint: Vector)
    requires
        pose.position.x == viewpoint.x,
        pose.position.z == viewpoint.z,
    ensures
        faced(pose, viewpoint) == pose,
        facing_outcome(pose, viewpoint) is Err,
{
}

/// Updating a pose twice for the same viewpoint changes nothing the second
/// time: the second update neither turns the entity nor reports a turn.
pub proof fn lemma_faced_idempotent(pose: Pose, viewpoint: Vector)
    ensures
        faced(faced(pose, viewpoint), viewpoint) == faced(pose, viewpoint),
        facing_outcome(faced(pose, viewpoint), viewpoint) != Ok::<bool, SceneError>(true),
        facing_outcome(pose, viewpoint) is Err ==> facing_outcome(faced(pose, viewpoint), viewpoint)
            == facing_outcome(pose, viewpoint),
        pose.rotation.is_orthonormal() ==> faced(pose, viewpoint).rotation.is_orthonormal(),
        faced(pose, viewpoint).position == pose.position,
{
    if facing_outcome(pose, viewpoint) is Ok {
        lemma_faced_points_at_viewpoint(pose, viewpoint);
    }
}

/// One update keeps the number of entities, every position, tag set,
/// visual, and with them the active viewpoint, and keeps every rotation
/// normalised.
pub proof fn lemma_face_each_keeps(scene: Seq<EntityModel>, viewpoint: Vector)
    ensures
        face_each(scene, viewpoint).len() == scene.len(),
        forall|i: int|
            0 <= i < scene.len() ==> {
                let after = #[trigger] face_each(scene, viewpoint)[i];
                &&& after.pose.position == scene[i].pose.position
                &&& after.tags == scene[i].tags
                &&& after.visual == scene[i].visual
            },
        viewpoint_of(face_each(scene, viewpoint)) == viewpoint_of(scene),
        scene_valid(scene) ==> scene_valid(face_each(scene, viewpoint)),
{
    let after = face_each(scene, viewpoint);
    assert forall|i: int| 0 <= i < scene.len() implies ({
        let a = #[trigger] after[i];
        &&& a.pose.position == scene[i].pose.position
        &&& a.tags == scene[i].tags
        &&& a.visual == scene[i].visual
        &&& scene[i].pose.rotation.is_orthonormal() ==> a.pose.rotation.is_orthonormal()
    }) by {
        lemma_faced_idempotent(scene[i].pose, viewpoint);
    }
    if exists|i: int| is_first_viewpoint(scene, i) {
        let k = choose|k: int| is_first_viewpoint(scene, k);
        lemma_viewpoint_is(scene, k);
        assert(after[k].visual == scene[k].visual);
        assert forall|j: int| 0 <= j < k implies (#[trigger] after[j]).visual
            != VisualModel::Viewpoint by {
            assert(after[j].visual == scene[j].visual);
        }
        assert(is_first_viewpoint(after, k));
        lemma_viewpoint_is(after, k);
    } else {
        assert forall|j: int| 0 <= j < after.len() implies (#[trigger] after[j]).visual
            != VisualModel::Viewpoint by {
            assert(after[j].visual == scene[j].visual);
            if scene[j].visual == VisualModel::Viewpoint {
                lemma_some_viewpoint(scene, j);
            }
        }
        lemma_no_viewpoint(after);
    }
    if scene_valid(scene) {
        assert forall|i: int| 0 <= i < after.len() implies (#[trigger] after[i]).pose.rotation.is_orthonormal() by {
            assert(scene[i].pose.rotation.is_orthonormal());
        }
    }
}

/// The update is idempotent: a second update, with no position changed in
/// between, leaves the scene as the first left it.
pub proof fn lemma_face_all_idempotent(scene: Seq<EntityModel>)
    ensures
        face_all(face_all(scene)) == face_all(scene),
{
    match viewpoint_of(scene) {
        Some(i) => {
            let viewpoint = scene[i].pose.position;
            let once = face_each(scene, viewpoint);
            lemma_face_each_keeps(scene, viewpoint);
            if exists|k: int| is_first_viewpoint(scene, k) {
                let k = choose|k: int| is_first_viewpoint(scene, k);
                assert(k == i);
            }
            assert(0 <= i < scene.len());
            assert(once[i].pose.position == viewpoint);
            assert(face_all(once) == face_each(once, viewpoint));
            assert forall|j: int| 0 <= j < once.len() implies face_each(once, viewpoint)[j]
                == once[j] by {
                lemma_faced_idempotent(scene[j].pose, viewpoint);
            }
            assert(face_each(once, viewpoint) =~= once);
        },
        None => {},
    }
}

/// A second update turns no entity: once the scene was updated for a
/// viewpoint, no entity of it is counted as turned for the same viewpoint.
pub proof fn lemma_second_update_turns_nothing(scene: Seq<EntityModel>, viewpoint: Vector)
    ensures
        count_outcome(face_each(scene, viewpoint), viewpoint, Ok(true)) == 0,
    decreases scene.len(),
{
    if scene.len() > 0 {
        lemma_second_update_turns_nothing(scene.drop_last(), viewpoint);
        assert(face_each(scene, viewpoint).drop_last() =~= face_each(
            scene.drop_last(),
            viewpoint,
        ));
        lemma_faced_idempotent(scene.last().pose, viewpoint);
    }
}

/// Turns the entity with the transform `transform` to face a viewpoint at
/// `viewpoint`, about the vertical axis only.
///
/// Returns `Ok(true)` where the rotation was written and `Ok(false)` where
/// it lay within `ROTATION_EPSILON` of the facing rotation already. Fails
/// with `MalformedTransform` where a position lies outside the world or the
/// rotation is not normalised, and with `DegenerateFacing` where the entity
/// and the viewpoint coincide in the horizontal plane. A failed call leaves
/// the transform as it is. The position is never changed.
pub fn face_toward(transform: &mut Transform, viewpoint: &Vec3) -> (r: Result<bool, SceneError>)
    ensures
        r == facing_outcome(old(transform)@, viewpoint@),
        final(transform)@ == faced(old(transform)@, viewpoint@),
        final(transform).position == old(transform).position,
        r != Ok::<bool, SceneError>(true) ==> *final(transform) == *old(transform),
        old(transform)@.rotation.is_orthonormal() ==> final(transform)@.rotation.is_orthonormal(),
{
    if !transform.position.in_world() || !viewpoint.in_world()
        || !transform.rotation.is_orthonormal() {
        return Err(SceneError::MalformedTransform);
    }
    let toward = viewpoint.minus(&transform.position).horizontal();
    let direction = match toward.normalize() {
        Some(direction) => direction,
        None => {
            return Err(SceneError::DegenerateFacing);
        },
    };
    proof {
        lemma_faced_points_at_viewpoint(transform@, viewpoint@);
    }
    let target = Rotation::facing(&direction);
    if target.differs_beyond(&transform.rotation, ROTATION_EPSILON) {
        transform.rotation = target;
        Ok(true)
    } else {
        Ok(false)
    }
}

/// Adds one to the count of `outcome` in `report`.
fn record(report: &mut FrameReport, outcome: Result<bool, SceneError>)
    requires
        old(report).turned + old(report).settled + old(report).degenerate + old(report).malformed
            < usize::MAX,
        outcome != Err::<bool, SceneError>(SceneError::InvalidLayout),
        outcome != Err::<bool, SceneError>(SceneError::UnknownEntity),
    ensures
        final(report).turned == old(report).turned + if outcome == Ok::<bool, SceneError>(true) {
            1int
        } else {
            0
        },
        final(report).settled == old(report).settled + if outcome == Ok::<bool, SceneError>(
            false,
        ) {
            1int
        } else {
            0
        },
        final(report).degenerate == old(report).degenerate + if outcome == Err::<
            bool,
            SceneError,
        >(SceneError::DegenerateFacing) {
            1int
        } else {
            0
        },
        final(report).malformed == old(report).malformed + if outcome == Err::<bool, SceneError>(
            SceneError::MalformedTransform,
        ) {
            1int
        } else {
            0
        },
{
    match outcome {
        Ok(true) => {
            report.turned = report.turned + 1;
        },
        Ok(false) => {
            report.settled = report.settled + 1;
        },
        Err(SceneError::DegenerateFacing) => {
            report.degenerate = report.degenerate + 1;
        },
        Err(_) => {
            report.malformed = report.malformed + 1;
        },
    }
}

/// Updates the entity `id` for a viewpoint at `viewpoint`, as one update
/// of the whole scene would. Returns `None`, and changes nothing, where the
/// store has no such entity or the entity is not tagged `FacesViewpoint`;
/// else what `face_toward` returns for the entity's transform.
pub fn face_entity_at(store: &mut Store, id: EntityId, viewpoint: &Vec3) -> (r: Option<
    Result<bool, SceneError>,
>)
    requires
        old(store).wf(),
    ensures
        final(store).wf(),
        id.index < old(store)@.len() ==> r == outcome_of(old(store)@[id.index as int], viewpoint@)
            && final(store)@ == old(store)@.update(
            id.index as int,
            face_entity(old(store)@[id.index as int], viewpoint@),
        ),
        id.index >= old(store)@.len() ==> r is None && final(store)@ == old(store)@,
{
    let entity = match store.entity(id) {
        Some(entity) => entity,
        None => {
            return None;
        },
    };
    if !entity.tags.has(Tag::FacesViewpoint) {
        assert(store@ =~= old(store)@.update(
            id.index as int,
            face_entity(old(store)@[id.index as int], viewpoint@),
        ));
        return None;
    }
    let mut transform = entity.transform;
    proof {
        store.lemma_valid();
    }
    let outcome = face_toward(&mut transform, viewpoint);
    match outcome {
        Ok(true) => {
            store.set_rotation(id.index, transform.rotation);
        },
        _ => {},
    }
    proof {
        assert(store@ =~= old(store)@.update(
            id.index as int,
            face_entity(old(store)@[id.index as int], viewpoint@),
        ));
    }
    Some(outcome)
}

/// Runs one update: every entity tagged `FacesViewpoint` is turned to face
/// the position that the active viewpoint has at the start of the call.
///
/// Returns the counts of what was done; `None`, with the scene unchanged,
/// where the scene has no viewpoint. No position, tag or visual is ever
/// changed, and a second call with no position changed in between changes
/// nothing.
pub fn face_camera(store: &mut Store) -> (r: Option<FrameReport>)
    requires
        old(store).wf(),
    ensures
        final(store).wf(),
        final(store)@ == face_all(old(store)@),
        match r {
            Some(report) => viewpoint_of(old(store)@) matches Some(i) && report.counts(
                old(store)@,
                old(store)@[i].pose.position,
            ),
            None => viewpoint_of(old(store)@) is None,
        },
{
    let camera = match store.viewpoint() {
        Some(camera) => camera,
        None => {
            return None;
        },
    };
    let viewpoint = match store.entity(camera) {
        Some(entity) => entity.transform.position,
        None => {
            return None;
        },
    };
    let ghost scene = store@;
    let n = store.len();
    let mut report = FrameReport { turned: 0, settled: 0, degenerate: 0, malformed: 0 };
    let mut i: usize = 0;
    while i < n
        invariant
            store.wf(),
            scene == old(store)@,
            n == scene.len(),
            store@.len() == n,
            i <= n,
            forall|j: int| 0 <= j < i ==> #[trigger] store@[j] == face_entity(scene[j], viewpoint@),
            forall|j: int| i <= j < n ==> #[trigger] store@[j] == scene[j],
            report.counts(scene.take(i as int), viewpoint@),
            report.turned + report.settled + report.degenerate + report.malformed <= i,
        decreases n - i,
    {
        let ghost before = store@;
        let outcome = face_entity_at(store, EntityId { index: i }, &viewpoint);
        proof {
            assert(scene.take(i + 1).drop_last() =~= scene.take(i as int));
            assert(scene.take(i + 1).last() == scene[i as int]);
        }
        match outcome {
            Some(outcome) => {
                record(&mut report, outcome);
            },
            None => {},
        }
        i += 1;
    }
    proof {
        assert(scene.take(n as int) =~= scene);
        assert(store@ =~= face_each(scene, viewpoint@));
    }
    Some(report)
}

} // verus!
