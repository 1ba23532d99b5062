//! The data model: what an entity carries, and the mathematical model of
//! each part.

use vstd::prelude::*;
use crate::rotation::{Basis, Rotation};
use crate::vector::{Vec3, Vector};

verus! {

/// A marker that an entity may carry.
#[derive(Clone, Copy, Debug, PartialEq, Eq, Structural)]
pub enum Tag {
    /// The controllable subject.
    Subject,
    /// The entity turns to face the viewpoint on every update.
    FacesViewpoint,
}

/// The bit that stands for `tag` in a tag set.
pub open spec fn mask_of(tag: Tag) -> u8 {
    match tag {
        Tag::Subject => 1,
        Tag::FacesViewpoint => 2,
    }
}

/// The set of tags of one entity, held as a bit set.
#[derive(Clone, Copy, Debug, PartialEq, Eq, Structural)]
pub struct Tags {
    bits: u8,
}

impl View for Tags {
    type V = Set<Tag>;

    closed spec fn view(&self) -> Set<Tag> {
        Set::new(|tag: Tag| self.bits & mask_of(tag) != 0)
    }
}

impl Tags {
    fn mask(tag: Tag) -> (m: u8)
        ensures
            m == mask_of(tag),
    {
        match tag {
            Tag::Subject => 1,
            Tag::FacesViewpoint => 2,
        }
    }

    /// The empty tag set.
    pub fn empty() -> (tags: Tags)
        ensures
            tags@ == Set::<Tag>::empty(),
    {
        let tags = Tags { bits: 0 };
        proof {
            assert(0u8 & 1u8 == 0u8) by (bit_vector);
            assert(0u8 & 2u8 == 0u8) by (bit_vector);
            assert(tags@ =~= Set::<Tag>::empty());
        }
        tags
    }

    /// Tells whether the set holds `tag`.
    pub fn has(&self, tag: Tag) -> (b: bool)
        ensures
            b == self@.contains(tag),
    {
        self.bits & Tags::mask(tag) != 0
    }

    /// The set with `tag` added.
    pub fn with(&self, tag: Tag) -> (tags: Tags)
        ensures
            tags@ == self@.insert(tag),
    {
        let bits = self.bits;
        let tags = Tags { bits: bits | Tags::mask(tag) };
        proof {
            assert((bits | 1u8) & 1u8 != 0u8) by (bit_vector);
            assert((bits | 2u8) & 2u8 != 0u8) by (bit_vector);
            assert((bits | 1u8) & 2u8 == bits & 2u8) by (bit_vector);
            assert((bits | 2u8) & 1u8 == bits & 1u8) by (bit_vector);
            assert forall|t: Tag| tags@.contains(t) == self@.insert(tag).contains(t) by {
                match t {
                    Tag::Subject => {},
                    Tag::FacesViewpoint => {},
                }
            }
            assert(tags@ =~= self@.insert(tag));
        }
        tags
    }

    /// Tells whether the set holds no tag.
    pub fn is_empty(&self) -> (b: bool)
        ensures
            b == (self@ == Set::<Tag>::empty()),
    {
        let bits = self.bits;
        proof {
            assert((bits & 3u8 == 0u8) == (bits & 1u8 == 0u8 && bits & 2u8 == 0u8))
                by (bit_vector);
            if bits & 3u8 == 0u8 {
                assert(self@ =~= Set::<Tag>::empty());
            } else if bits & 1u8 != 0u8 {
                assert(self@.contains(Tag::Subject));
            } else {
                assert(self@.contains(Tag::FacesViewpoint));
            }
        }
        bits & 3 == 0
    }
}

/// The fixed colours of the scene.
#[derive(Clone, Copy, Debug, PartialEq, Eq, Structural)]
pub enum Color {
    /// No colour of its own: drawn as the renderer draws by default.
    Plain,
    Gray,
    DarkGray,
    AntiqueWhite,
}

/// What stands for an entity on screen. Lengths are in ticks.
#[derive(Clone, Copy, Debug, PartialEq, Eq, Structural)]
pub enum Visual {
    /// Nothing is drawn.
    Nothing,
    /// The viewpoint from which the scene is observed.
    Viewpoint,
    /// A horizontal square of side `side`, centred on the entity.
    Plane { side: i64, color: Color },
    /// A box with the given side lengths, centred on the entity.
    Block { size: Vec3, color: Color },
    /// A point light.
    PointLight { color: Color, intensity: i64, range: i64, radius: i64 },
}

/// The mathematical model of a [`Visual`].
pub enum VisualModel {
    Nothing,
    Viewpoint,
    Plane { side: int, color: Color },
    Block { size: Vector, color: Color },
    PointLight { color: Color, intensity: int, range: int, radius: int },
}

impl View for Visual {
    type V = VisualModel;

    open spec fn view(&self) -> VisualModel {
        match *self {
            Visual::Nothing => VisualModel::Nothing,
            Visual::Viewpoint => VisualModel::Viewpoint,
            Visual::Plane { side, color } => VisualModel::Plane { side: side as int, color },
            Visual::Block { size, color } => VisualModel::Block { size: size@, color },
            Visual::PointLight { color, intensity, range, radius } => VisualModel::PointLight {
                color,
                intensity: intensity as int,
                range: range as int,
                radius: radius as int,
            },
        }
    }
}

/// Where an entity is and how it is turned.
#[derive(Clone, Copy, Debug, PartialEq, Eq, Structural)]
pub struct Transform {
    pub position: Vec3,
    pub rotation: Rotation,
}

/// The mathematical model of a [`Transform`].
pub struct Pose {
    pub position: Vector,
    pub rotation: Basis,
}

impl View for Transform {
    type V = Pose;

    open spec fn view(&self) -> Pose {
        Pose { position: self.position@, rotation: self.rotation@ }
    }
}

impl Transform {
    /// The transform of an entity at `position` that is not rotated.
    pub fn at(position: Vec3) -> (t: Transform)
        ensures
            t@ == (Pose { position: position@, rotation: Basis::identity() }),
    {
        Transform { position, rotation: Rotation::identity() }
    }
}

/// Everything that one entity carries.
#[derive(Clone, Copy, Debug, PartialEq, Eq, Structural)]
pub struct Entity {
    pub transform: Transform,
    pub tags: Tags,
    pub visual: Visual,
}

/// The mathematical model of an [`Entity`].
pub struct EntityModel {
    pub pose: Pose,
    pub tags: Set<Tag>,
    pub visual: VisualModel,
}

impl View for Entity {
    type V = EntityModel;

    open spec fn view(&self) -> EntityModel {
        EntityModel { pose: self.transform@, tags: self.tags@, visual: self.visual@ }
    }
}

impl EntityModel {
    /// A new entity before anything is attached to it: at the origin, not
    /// rotated, without tags, and not drawn.
    pub open spec fn blank() -> EntityModel {
        EntityModel {
            pose: Pose { position: Vector::zero(), rotation: Basis::identity() },
            tags: Set::empty(),
            visual: VisualModel::Nothing,
        }
    }
}

/// One thing that can be attached to an entity.
#[derive(Clone, Copy, Debug, PartialEq, Eq, Structural)]
pub enum Component {
    /// Replaces the entity's transform.
    Transform(Transform),
    /// Adds a tag to the entity's tags.
    Tag(Tag),
    /// Replaces the entity's visual.
    Visual(Visual),
}

/// The entity `entity` after `component` was attached to it.
pub open spec fn attached(entity: EntityModel, component: Component) -> EntityModel {
    match component {
        Component::Transform(transform) => EntityModel { pose: transform@, ..entity },
        Component::Tag(tag) => EntityModel { tags: entity.tags.insert(tag), ..entity },
        Component::Visual(visual) => EntityModel { visual: visual@, ..entity },
    }
}

/// Every entity of the scene has a normalised rotation.
pub open spec fn scene_valid(scene: Seq<EntityModel>) -> bool {
    forall|i: int| 0 <= i < scene.len() ==> (#[trigger] scene[i]).pose.rotation.is_orthonormal()
}

} // verus!
