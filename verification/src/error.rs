//! What can go wrong while the scene is set up or updated.

use vstd::prelude::*;

verus! {

/// The errors of the scene core.
#[derive(Clone, Copy, Debug, PartialEq, Eq, Structural)]
pub enum SceneError {
    /// The arena size is not positive. Fatal: the scene must not be built.
    InvalidLayout,
    /// The entity and the viewpoint coincide in the horizontal plane, so no
    /// facing direction exists. The entity keeps its rotation.
    DegenerateFacing,
    /// A position lies outside the world, or a rotation is not normalised.
    /// The entity keeps its rotation.
    MalformedTransform,
    /// No entity has this identifier.
    UnknownEntity,
}

impl SceneError {
    /// Tells whether the scene cannot go on after this error. Only a bad
    /// layout is fatal; the others concern one entity and one call.
    pub fn is_fatal(&self) -> (b: bool)
        ensures
            b == (*self == SceneError::InvalidLayout),
    {
        match self {
            SceneError::InvalidLayout => true,
            _ => false,
        }
    }
}

} // verus!
