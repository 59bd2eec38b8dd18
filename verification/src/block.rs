//! Block (voxel) types and their fixed face palette.

use vstd::prelude::*;

verus! {

/// The closed set of voxel kinds.  `Empty` is the only non-solid kind;
/// every other kind is an opaque solid that meshing emits faces for.
#[derive(Clone, Copy, PartialEq, Eq, Structural, Debug)]
pub enum BlockType {
    Empty,
    Grass,
    Dirt,
    Stone,
    Wood,
    Leaf,
}

/// Whether a block occludes its neighbours (everything but `Empty`).
pub open spec fn spec_solid(b: BlockType) -> bool {
    b != BlockType::Empty
}

/// An RGBA colour with 8-bit channels.
#[derive(Clone, Copy, PartialEq, Eq, Structural, Debug)]
pub struct Rgba {
    pub r: u8,
    pub g: u8,
    pub b: u8,
    pub a: u8,
}

/// The fixed face palette: the colour a mesh face of this block kind gets.
pub open spec fn spec_palette(b: BlockType) -> Rgba {
    match b {
        BlockType::Grass => Rgba { r: 26, g: 204, b: 26, a: 255 },
        BlockType::Dirt => Rgba { r: 140, g: 69, b: 18, a: 255 },
        BlockType::Stone => Rgba { r: 153, g: 153, b: 153, a: 255 },
        BlockType::Wood => Rgba { r: 140, g: 69, b: 18, a: 255 },
        BlockType::Leaf => Rgba { r: 51, g: 153, b: 51, a: 255 },
        BlockType::Empty => Rgba { r: 255, g: 255, b: 255, a: 255 },
    }
}

impl BlockType {
    /// True exactly for the opaque solids consumed by meshing.
    pub fn get_visibility(&self) -> (solid: bool)
        ensures
            solid == spec_solid(*self),
    {
        match self {
            BlockType::Empty => false,
            _ => true,
        }
    }

    /// The value faces are merged by: two faces may join only when their
    /// blocks have equal merge values, which for this palette means equal
    /// block kinds.
    pub fn merge_value(&self) -> (v: BlockType)
        ensures
            v == *self,
    {
        *self
    }

    /// The palette colour of this block kind.
    pub fn color(&self) -> (c: Rgba)
        ensures
            c == spec_palette(*self),
    {
        match self {
            BlockType::Grass => Rgba { r: 26, g: 204, b: 26, a: 255 },
            BlockType::Dirt => Rgba { r: 140, g: 69, b: 18, a: 255 },
            BlockType::Stone => Rgba { r: 153, g: 153, b: 153, a: 255 },
            BlockType::Wood => Rgba { r: 140, g: 69, b: 18, a: 255 },
            BlockType::Leaf => Rgba { r: 51, g: 153, b: 51, a: 255 },
            BlockType::Empty => Rgba { r: 255, g: 255, b: 255, a: 255 },
        }
    }
}

} // verus!
