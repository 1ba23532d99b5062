//! The arena: a square floor, four walls around it and one light, laid out
//! from a single size.

use vstd::prelude::*;
use crate::entity::{Color, Visual, VisualModel};
use crate::error::SceneError;
use crate::scalar::{ONE, QUARTER};
use crate::vector::{Vec3, Vector};

verus! {

/// Height of a wall.
pub const WALL_HEIGHT: i64 = 2_097_152;

/// Thickness of a wall.
pub const WALL_THICKNESS: i64 = 524_288;

/// Height of the light above the floor.
pub const LIGHT_HEIGHT: i64 = 11_534_336;

/// Intensity of the light.
pub const LIGHT_INTENSITY: i64 = 10_485_760_000;

/// Radius of the light.
pub const LIGHT_RADIUS: i64 = 104_857_600;

/// The number of placements of an arena.
pub const PLACEMENTS: usize = 6;

/// One piece of static geometry: what it is and where its centre lies.
#[derive(Clone, Copy, Debug, PartialEq, Eq, Structural)]
pub struct Placement {
    pub position: Vec3,
    pub visual: Visual,
}

/// The mathematical model of a [`Placement`].
pub struct PlacementModel {
    pub position: Vector,
    pub visual: VisualModel,
}

impl View for Placement {
    type V = PlacementModel;

    open spec fn view(&self) -> PlacementModel {
        PlacementModel { position: self.position@, visual: self.visual@ }
    }
}

impl PlacementModel {
    /// How far the piece reaches from its centre along each axis: half its
    /// size, rounded down. A plane has no height; what is no solid has no
    /// extent.
    pub open spec fn half_extent(self) -> Vector {
        match self.visual {
            VisualModel::Plane { side, .. } => Vector { x: side / 2, y: 0, z: side / 2 },
            VisualModel::Block { size, .. } => Vector { x: size.x / 2, y: size.y / 2, z: size.z / 2 },
            _ => Vector::zero(),
        }
    }

    /// The corner of the piece with the smallest coordinates.
    pub open spec fn low(self) -> Vector {
        self.position.minus(self.half_extent())
    }

    /// The corner of the piece with the largest coordinates.
    pub open spec fn high(self) -> Vector {
        self.position.plus(self.half_extent())
    }
}

/// The models of a sequence of placements.
pub open spec fn models_of(placements: Seq<Placement>) -> Seq<PlacementModel> {
    placements.map_values(|p: Placement| p@)
}

/// Side of the floor of an arena of outer side `unit_size`.
pub open spec fn floor_side(unit_size: int) -> int {
    unit_size - ONE
}

/// Distance of the centre of each wall from the centre of the arena.
pub open spec fn wall_offset(unit_size: int) -> int {
    unit_size / 2 - QUARTER
}

/// Distance between the inner faces of two opposite walls.
pub open spec fn clearance(unit_size: int) -> int {
    2 * (unit_size / 2) - ONE
}

/// The floor: a horizontal plane at the origin.
pub open spec fn floor(unit_size: int) -> PlacementModel {
    PlacementModel {
        position: Vector::zero(),
        visual: VisualModel::Plane { side: floor_side(unit_size), color: Color::Gray },
    }
}

/// A wall that runs along the x axis, with its centre at `z`.
pub open spec fn wall_along_x(unit_size: int, z: int) -> PlacementModel {
    PlacementModel {
        position: Vector { x: 0, y: ONE as int, z },
        visual: VisualModel::Block {
            size: Vector { x: unit_size, y: WALL_HEIGHT as int, z: WALL_THICKNESS as int },
            color: Color::DarkGray,
        },
    }
}

/// A wall that runs along the z axis, with its centre at `x`.
pub open spec fn wall_along_z(unit_size: int, x: int) -> PlacementModel {
    PlacementModel {
        position: Vector { x, y: ONE as int, z: 0 },
        visual: VisualModel::Block {
            size: Vector { x: WALL_THICKNESS as int, y: WALL_HEIGHT as int, z: unit_size },
            color: Color::DarkGray,
        },
    }
}

/// The light above the centre of the arena, which reaches as far as the
/// floor is wide.
pub open spec fn light(unit_size: int) -> PlacementModel {
    PlacementModel {
        position: Vector { x: 0, y: LIGHT_HEIGHT as int, z: 0 },
        visual: VisualModel::PointLight {
            color: Color::AntiqueWhite,
            intensity: LIGHT_INTENSITY as int,
            range: floor_side(unit_size),
            radius: LIGHT_RADIUS as int,
        },
    }
}

/// The placements of an arena of outer side `unit_size`, in order: the
/// floor, the north and south walls, the east and west walls, the light.
pub open spec fn arena_placements(unit_size: int) -> Seq<PlacementModel> {
    seq![
        floor(unit_size),
        wall_along_x(unit_size, -wall_offset(unit_size)),
        wall_along_x(unit_size, wall_offset(unit_size)),
        wall_along_z(unit_size, -wall_offset(unit_size)),
        wall_along_z(unit_size, wall_offset(unit_size)),
        light(unit_size),
    ]
}

/// The walls of an arena enclose its floor without gap or overlap, and meet
/// flush at the four corners.
///
/// For every positive size: the floor reaches exactly to the inner face of
/// each wall; the distance between the inner faces of opposite walls is the
/// same along both axes and is the side of the floor, short of it by one
/// tick where the size is an odd number of ticks; and the outer face of each
/// wall lies in one plane with the ends of the two walls that adjoin it.
pub proof fn lemma_arena_encloses_floor(unit_size: int)
    requires
        unit_size > 0,
    ensures
        ({
            let arena = arena_placements(unit_size);
            let (ground, north, south, east, west) = (arena[0], arena[1], arena[2], arena[3], arena[4]);
            &&& south.low().z - north.high().z == clearance(unit_size)
            &&& west.low().x - east.high().x == clearance(unit_size)
            &&& floor_side(unit_size) - 1 <= clearance(unit_size) <= floor_side(unit_size)
            &&& unit_size % 2 == 0 ==> clearance(unit_size) == floor_side(unit_size)
            &&& ground.low().z == north.high().z
            &&& ground.high().z == south.low().z
            &&& ground.low().x == east.high().x
            &&& ground.high().x == west.low().x
            &&& north.low().z == east.low().z == west.low().z
            &&& south.high().z == east.high().z == west.high().z
            &&& east.low().x == north.low().x == south.low().x
            &&& west.high().x == north.high().x == south.high().x
        }),
{
}

/// Computes the placements of an arena of outer side `unit_size`.
///
/// Fails with `InvalidLayout` exactly where `unit_size` is not positive.
pub fn arena_layout(unit_size: i64) -> (r: Result<Vec<Placement>, SceneError>)
    ensures
        match r {
            Ok(placements) => unit_size > 0 && models_of(placements@) == arena_placements(
                unit_size as int,
            ),
            Err(e) => unit_size <= 0 && e == SceneError::InvalidLayout,
        },
{
    if unit_size <= 0 {
        return Err(SceneError::InvalidLayout);
    }
    let side = unit_size - ONE;
    let offset = unit_size / 2 - QUARTER;
    let along_x = Visual::Block {
        size: Vec3 { x: unit_size, y: WALL_HEIGHT, z: WALL_THICKNESS },
        color: Color::DarkGray,
    };
    let along_z = Visual::Block {
        size: Vec3 { x: WALL_THICKNESS, y: WALL_HEIGHT, z: unit_size },
        color: Color::DarkGray,
    };
    let mut placements: Vec<Placement> = Vec::with_capacity(PLACEMENTS);
    placements.push(
        Placement { position: Vec3::zero(), visual: Visual::Plane { side, color: Color::Gray } },
    );
    placements.push(Placement { position: Vec3 { x: 0, y: ONE, z: -offset }, visual: along_x });
    placements.push(Placement { position: Vec3 { x: 0, y: ONE, z: offset }, visual: along_x });
    placements.push(Placement { position: Vec3 { x: -offset, y: ONE, z: 0 }, visual: along_z });
    placements.push(Placement { position: Vec3 { x: offset, y: ONE, z: 0 }, visual: along_z });
    placements.push(
        Placement {
            position: Vec3 { x: 0, y: LIGHT_HEIGHT, z: 0 },
            visual: Visual::PointLight {
                color: Color::AntiqueWhite,
                intensity: LIGHT_INTENSITY,
                range: side,
                radius: LIGHT_RADIUS,
            },
        },
    );
    proof {
        assert(models_of(placements@) =~= arena_placements(unit_size as int));
    }
    Ok(placements)
}

} // verus!
