//! The entity store: entities are indices into dense component arrays.
//! Entities are created and never destroyed, so an identifier stays valid
//! for the life of the store.

use vstd::prelude::*;
use crate::entity::{
    attached, scene_valid, Component, Entity, EntityModel, Tag, Tags, Transform, Visual,
    VisualModel, Pose,
};
use crate::error::SceneError;
use crate::rotation::Rotation;
use crate::vector::Vec3;

verus! {

/// The handle of an entity: its index in the store.
#[derive(Clone, Copy, Debug, PartialEq, Eq, Structural)]
pub struct EntityId {
    pub index: usize,
}

/// `i` is the first entity of `scene` that is a viewpoint.
pub open spec fn is_first_viewpoint(scene: Seq<EntityModel>, i: int) -> bool {
    &&& 0 <= i < scene.len()
    &&& scene[i].visual == VisualModel::Viewpoint
    &&& forall|j: int| 0 <= j < i ==> (#[trigger] scene[j]).visual != VisualModel::Viewpoint
}

/// The index of the active viewpoint of `scene`: the first entity that is
/// a viewpoint, if there is one.
pub open spec fn viewpoint_of(scene: Seq<EntityModel>) -> Option<int> {
    if exists|i: int| is_first_viewpoint(scene, i) {
        Some(choose|i: int| is_first_viewpoint(scene, i))
    } else {
        None
    }
}

/// `i` is the first entity of `scene` at or after `from` that carries `tag`.
pub open spec fn is_next_tagged(scene: Seq<EntityModel>, from: int, tag: Tag, i: int) -> bool {
    &&& from <= i < scene.len()
    &&& scene[i].tags.contains(tag)
    &&& forall|j: int| from <= j < i ==> !(#[trigger] scene[j]).tags.contains(tag)
}

/// No entity of `scene` at or after `from` carries `tag`.
pub open spec fn none_tagged_from(scene: Seq<EntityModel>, from: int, tag: Tag) -> bool {
    forall|j: int| from <= j < scene.len() ==> !(#[trigger] scene[j]).tags.contains(tag)
}

/// `found` lists the entities of `scene` that carry `tag`: every handle of
/// it names such an entity, the handles rise, so that none occurs twice,
/// and no such entity is left out.
pub open spec fn is_query_result(scene: Seq<EntityModel>, tag: Tag, found: Seq<EntityId>) -> bool {
    &&& forall|k: int|
        0 <= k < found.len() ==> (#[trigger] found[k]).index < scene.len()
            && scene[found[k].index as int].tags.contains(tag)
    &&& forall|k: int, l: int|
        0 <= k < l < found.len() ==> (#[trigger] found[k]).index < (#[trigger] found[l]).index
    &&& forall|j: int|
        0 <= j < scene.len() && (#[trigger] scene[j]).tags.contains(tag) ==> exists|k: int|
            0 <= k < found.len() && (#[trigger] found[k]).index == j
}

/// At most one entity is the first viewpoint.
pub proof fn lemma_first_viewpoint_unique(scene: Seq<EntityModel>, i: int, j: int)
    requires
        is_first_viewpoint(scene, i),
        is_first_viewpoint(scene, j),
    ensures
        i == j,
{
    if i < j {
        assert(scene[i].visual != VisualModel::Viewpoint);
    } else if j < i {
        assert(scene[j].visual != VisualModel::Viewpoint);
    }
}

/// The first viewpoint, once found, is the active viewpoint.
pub proof fn lemma_viewpoint_is(scene: Seq<EntityModel>, i: int)
    requires
        is_first_viewpoint(scene, i),
    ensures
        viewpoint_of(scene) == Some(i),
{
    let k = choose|k: int| is_first_viewpoint(scene, k);
    lemma_first_viewpoint_unique(scene, i, k);
}

/// A scene without viewpoint entities has no active viewpoint.
pub proof fn lemma_no_viewpoint(scene: Seq<EntityModel>)
    requires
        forall|j: int| 0 <= j < scene.len() ==> (#[trigger] scene[j]).visual != VisualModel::Viewpoint,
    ensures
        viewpoint_of(scene) is None,
{
    if exists|i: int| is_first_viewpoint(scene, i) {
        let k = choose|k: int| is_first_viewpoint(scene, k);
        assert(scene[k].visual != VisualModel::Viewpoint);
    }
}

/// A scene that holds a viewpoint entity has a first one.
pub proof fn lemma_some_viewpoint(scene: Seq<EntityModel>, j: int)
    requires
        0 <= j < scene.len(),
        scene[j].visual == VisualModel::Viewpoint,
    ensures
        exists|i: int| is_first_viewpoint(scene, i),
    decreases j,
{
    if forall|k: int| 0 <= k < j ==> (#[trigger] scene[k]).visual
        != VisualModel::Viewpoint {
        assert(is_first_viewpoint(scene, j));
    } else {
        let k = choose|k: int| 0 <= k < j && (#[trigger] scene[k]).visual
            == VisualModel::Viewpoint;
        lemma_some_viewpoint(scene, k);
    }
}

/// The entities of a scene, component by component.
pub struct Store {
    transforms: Vec<Transform>,
    tags: Vec<Tags>,
    visuals: Vec<Visual>,
}

impl View for Store {
    type V = Seq<EntityModel>;

    closed spec fn view(&self) -> Seq<EntityModel> {
        Seq::new(
            self.transforms@.len(),
            |i: int|
                EntityModel {
                    pose: self.transforms@[i]@,
                    tags: self.tags@[i]@,
                    visual: self.visuals@[i]@,
                },
        )
    }
}

impl Store {
    /// The component arrays have one length, and every rotation is
    /// normalised.
    pub closed spec fn wf(&self) -> bool {
        &&& self.transforms@.len() == self.tags@.len()
        &&& self.transforms@.len() == self.visuals@.len()
        &&& forall|i: int|
            0 <= i < self.transforms@.len() ==> (#[trigger] self.transforms@[i]).rotation@.is_orthonormal()
    }

    /// In a well-formed store every entity has a normalised rotation.
    pub proof fn lemma_valid(&self)
        requires
            self.wf(),
        ensures
            scene_valid(self@),
    {
        assert forall|i: int| 0 <= i < self@.len() implies (#[trigger] self@[i]).pose.rotation.is_orthonormal() by {
            assert(self.transforms@[i].rotation@.is_orthonormal());
        }
    }

    /// An empty store.
    pub fn new() -> (store: Store)
        ensures
            store.wf(),
            store@ == Seq::<EntityModel>::empty(),
    {
        let store = Store { transforms: Vec::new(), tags: Vec::new(), visuals: Vec::new() };
        assert(store@ =~= Seq::<EntityModel>::empty());
        store
    }

    /// The number of entities.
    pub fn len(&self) -> (n: usize)
        ensures
            n == self@.len(),
    {
        self.transforms.len()
    }

    /// Creates an entity with nothing attached and returns its handle. The
    /// new entity is the last of the store; the others keep their handles.
    pub fn create_entity(&mut self) -> (id: EntityId)
        requires
            old(self).wf(),
        ensures
            final(self).wf(),
            final(self)@ == old(self)@.push(EntityModel::blank()),
            id.index == old(self)@.len(),
    {
        let index = self.transforms.len();
        self.transforms.push(Transform::at(Vec3::zero()));
        self.tags.push(Tags::empty());
        self.visuals.push(Visual::Nothing);
        proof {
            assert(self.transforms@[index as int].rotation@.is_orthonormal());
            assert(self@ =~= old(self)@.push(EntityModel::blank()));
        }
        EntityId { index }
    }

    /// Attaches `component` to the entity `id`: a transform or a visual
    /// replaces the one that the entity had, a tag joins its tags.
    ///
    /// Fails with `UnknownEntity` where the store has no such entity, and
    /// with `MalformedTransform` where the component is a transform whose
    /// rotation is not normalised. A failed call changes nothing.
    pub fn attach(&mut self, id: EntityId, component: Component) -> (r: Result<(), SceneError>)
        requires
            old(self).wf(),
        ensures
            final(self).wf(),
            r == attach_result(old(self)@, id, component),
            r is Ok ==> final(self)@ == old(self)@.update(
                id.index as int,
                attached(old(self)@[id.index as int], component),
            ),
            r is Err ==> final(self)@ == old(self)@,
    {
        if id.index >= self.transforms.len() {
            return Err(SceneError::UnknownEntity);
        }
        match component {
            Component::Transform(transform) => {
                if !transform.rotation.is_orthonormal() {
                    return Err(SceneError::MalformedTransform);
                }
                self.transforms.set(id.index, transform);
            },
            Component::Tag(tag) => {
                let tags = self.tags[id.index].with(tag);
                self.tags.set(id.index, tags);
            },
            Component::Visual(visual) => {
                self.visuals.set(id.index, visual);
            },
        }
        proof {
            assert(self@ =~= old(self)@.update(
                id.index as int,
                attached(old(self)@[id.index as int], component),
            ));
        }
        Ok(())
    }

    /// Everything that the entity `id` carries; `None` where the store has
    /// no such entity.
    pub fn entity(&self, id: EntityId) -> (r: Option<Entity>)
        requires
            self.wf(),
        ensures
            match r {
                Some(entity) => id.index < self@.len() && entity@ == self@[id.index as int],
                None => id.index >= self@.len(),
            },
    {
        if id.index >= self.transforms.len() {
            return None;
        }
        Some(
            Entity {
                transform: self.transforms[id.index],
                tags: self.tags[id.index],
                visual: self.visuals[id.index],
            },
        )
    }

    /// Moves the entity `id` to `position` and leaves the rest of it as it
    /// is. Any position is accepted: one outside the world makes the
    /// transform malformed until the entity is moved back.
    ///
    /// Fails with `UnknownEntity`, and changes nothing, where the store has
    /// no such entity.
    pub fn set_position(&mut self, id: EntityId, position: Vec3) -> (r: Result<(), SceneError>)
        requires
            old(self).wf(),
        ensures
            final(self).wf(),
            id.index < old(self)@.len() ==> r is Ok && final(self)@ == old(self)@.update(
                id.index as int,
                moved(old(self)@[id.index as int], position),
            ),
            id.index >= old(self)@.len() ==> r == Err::<(), SceneError>(SceneError::UnknownEntity)
                && final(self)@ == old(self)@,
    {
        if id.index >= self.transforms.len() {
            return Err(SceneError::UnknownEntity);
        }
        let rotation = self.transforms[id.index].rotation;
        self.transforms.set(id.index, Transform { position, rotation });
        proof {
            assert(self@ =~= old(self)@.update(
                id.index as int,
                moved(old(self)@[id.index as int], position),
            ));
        }
        Ok(())
    }

    /// Turns the entity at `index` to `rotation` and leaves the rest of it
    /// as it is.
    pub(crate) fn set_rotation(&mut self, index: usize, rotation: Rotation)
        requires
            old(self).wf(),
            index < old(self)@.len(),
            rotation@.is_orthonormal(),
        ensures
            final(self).wf(),
            final(self)@ == old(self)@.update(
                index as int,
                turned(old(self)@[index as int], rotation),
            ),
    {
        let position = self.transforms[index].position;
        self.transforms.set(index, Transform { position, rotation });
        proof {
            assert(self@ =~= old(self)@.update(
                index as int,
                turned(old(self)@[index as int], rotation),
            ));
        }
    }

    /// The first entity at or after the index `from` that carries `tag`;
    /// `None` where there is none. Calling it again from one past the
    /// result visits every tagged entity once, in the order of creation.
    pub fn next_tagged(&self, from: usize, tag: Tag) -> (r: Option<EntityId>)
        requires
            self.wf(),
        ensures
            match r {
                Some(id) => is_next_tagged(self@, from as int, tag, id.index as int),
                None => none_tagged_from(self@, from as int, tag),
            },
    {
        let n = self.tags.len();
        let mut i: usize = from;
        while i < n
            invariant
                self.wf(),
                n == self@.len(),
                n == self.tags@.len(),
                from <= i,
                forall|j: int| from <= j < i && j < n ==> !(#[trigger] self@[j]).tags.contains(tag),
            decreases n - i,
        {
            if self.tags[i].has(tag) {
                return Some(EntityId { index: i });
            }
            i += 1;
        }
        None
    }

    /// The handles of all entities that carry `tag`, each once, in the order
    /// of creation.
    pub fn query(&self, tag: Tag) -> (found: Vec<EntityId>)
        requires
            self.wf(),
        ensures
            is_query_result(self@, tag, found@),
    {
        let n = self.tags.len();
        let mut found: Vec<EntityId> = Vec::new();
        let mut i: usize = 0;
        while i < n
            invariant
                self.wf(),
                n == self@.len(),
                n == self.tags@.len(),
                i <= n,
                is_query_result(self@.take(i as int), tag, found@),
            decreases n - i,
        {
            let ghost before = found@;
            if self.tags[i].has(tag) {
                found.push(EntityId { index: i });
                proof {
                    assert forall|j: int| 0 <= j < i + 1 && (#[trigger] self@.take(i + 1)[j]).tags.contains(
                        tag,
                    ) implies exists|k: int| 0 <= k < found@.len() && (#[trigger] found@[k]).index
                        == j by {
                        if j < i {
                            assert(self@.take(i as int)[j].tags.contains(tag));
                            let k = choose|k: int| 0 <= k < before.len() && (#[trigger] before[k]).index
                                == j;
                            assert(found@[k].index == j);
                        } else {
                            assert(found@[before.len() as int].index == j);
                        }
                    }
                }
            } else {
                proof {
                    assert forall|j: int| 0 <= j < i + 1 && (#[trigger] self@.take(i + 1)[j]).tags.contains(
                        tag,
                    ) implies exists|k: int| 0 <= k < found@.len() && (#[trigger] found@[k]).index
                        == j by {
                        assert(self@.take(i as int)[j].tags.contains(tag));
                    }
                }
            }
            i += 1;
        }
        proof {
            assert(self@.take(n as int) =~= self@);
        }
        found
    }

    /// The active viewpoint: the first entity that is a viewpoint; `None`
    /// where the scene has none.
    pub fn viewpoint(&self) -> (r: Option<EntityId>)
        requires
            self.wf(),
        ensures
            match r {
                Some(id) => viewpoint_of(self@) == Some(id.index as int),
                None => viewpoint_of(self@) is None,
            },
    {
        let n = self.visuals.len();
        let mut i: usize = 0;
        while i < n
            invariant
                self.wf(),
                n == self@.len(),
                n == self.visuals@.len(),
                i <= n,
                forall|j: int| 0 <= j < i ==> (#[trigger] self@[j]).visual != VisualModel::Viewpoint,
            decreases n - i,
        {
            match self.visuals[i] {
                Visual::Viewpoint => {
                    proof {
                        lemma_viewpoint_is(self@, i as int);
                    }
                    return Some(EntityId { index: i });
                },
                _ => {},
            }
            i += 1;
        }
        proof {
            lemma_no_viewpoint(self@);
        }
        None
    }
}

/// What attaching `component` to the entity `id` of `scene` returns.
pub open spec fn attach_result(scene: Seq<EntityModel>, id: EntityId, component: Component) -> Result<
    (),
    SceneError,
> {
    if id.index >= scene.len() {
        Err(SceneError::UnknownEntity)
    } else if component matches Component::Transform(transform)
        && !transform.rotation@.is_orthonormal() {
        Err(SceneError::MalformedTransform)
    } else {
        Ok(())
    }
}

/// The entity `entity` moved to `position`.
pub open spec fn moved(entity: EntityModel, position: Vec3) -> EntityModel {
    EntityModel { pose: Pose { position: position@, ..entity.pose }, ..entity }
}

/// The entity `entity` turned to `rotation`.
pub open spec fn turned(entity: EntityModel, rotation: Rotation) -> EntityModel {
    EntityModel { pose: Pose { rotation: rotation@, ..entity.pose }, ..entity }
}

} // verus!
