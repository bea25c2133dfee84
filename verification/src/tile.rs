//! The tile catalog: the closed set of tile variants and the mapping from a
//! tile to its sub-rectangle of the shared texture atlas.

use vstd::prelude::*;

verus! {

/// Width in pixels of one tile cell of the texture atlas.
pub const WIDTH_PX: u32 = 32;

/// Height in pixels of one tile cell of the texture atlas.
pub const HEIGHT_PX: u32 = 32;

/// Number of tile cells on one horizontal line of the texture atlas.
pub const ATLAS_LINE_TILE_COUNT: u32 = 16;

/// One cell of the world: empty air, solid grass ground, or a plant whose
/// boolean payload says whether it is mature (`true`) or immature (`false`).
#[derive(Clone, Copy, PartialEq, Eq, Structural, Debug)]
pub enum Tile {
    Air,
    Grass,
    Plant(bool),
}

/// A sub-rectangle of the texture atlas, in pixels.
#[derive(Clone, Copy, PartialEq, Eq, Structural, Debug)]
pub struct AtlasRect {
    pub left: i32,
    pub top: i32,
    pub width: i32,
    pub height: i32,
}

/// The atlas rectangle of the tile kind with index `kind`: the atlas is a
/// grid of `WIDTH_PX x HEIGHT_PX` cells, `ATLAS_LINE_TILE_COUNT` per line,
/// filled line by line in kind order.
pub open spec fn spec_atlas_rect(kind: int) -> AtlasRect {
    AtlasRect {
        left: ((WIDTH_PX as int) * (kind % (ATLAS_LINE_TILE_COUNT as int))) as i32,
        top: ((HEIGHT_PX as int) * (kind / (ATLAS_LINE_TILE_COUNT as int))) as i32,
        width: WIDTH_PX as i32,
        height: HEIGHT_PX as i32,
    }
}

impl Tile {
    /// The stable kind index of this tile variant; it exists only to locate
    /// the variant's cell in the texture atlas.
    pub open spec fn spec_id(self) -> int {
        match self {
            Tile::Air => 0,
            Tile::Grass => 1,
            Tile::Plant(mature) => if mature {
                3
            } else {
                2
            },
        }
    }

    /// The atlas rectangle of this tile, or `None` for `Air`, which has no
    /// visual and produces no draw command.
    pub open spec fn spec_texture_rect(self) -> Option<AtlasRect> {
        if self is Air {
            None
        } else {
            Some(spec_atlas_rect(self.spec_id()))
        }
    }

    pub fn tile_id(&self) -> (r: i32)
        ensures
            r as int == self.spec_id(),
    {
        match self {
            Tile::Air => 0,
            Tile::Grass => 1,
            Tile::Plant(false) => 2,
            Tile::Plant(true) => 3,
        }
    }

    pub fn texture_rect(&self) -> (r: Option<AtlasRect>)
        ensures
            r == self.spec_texture_rect(),
            r is Some <==> !(*self is Air),
    {
        match self {
            Tile::Air => None,
            _ => {
                let a = self.tile_id();
                Some(atlas_rect_for_kind(a))
            },
        }
    }
}

/// The atlas rectangle of kind index `kind`, by the line-by-line layout of
/// the atlas. The upper bound on `kind` is exactly what keeps the computed
/// top edge within `i32`.
pub fn atlas_rect_for_kind(kind: i32) -> (r: AtlasRect)
    requires
        0 <= kind <= 0x3fff_ffff,
    ensures
        r == spec_atlas_rect(kind as int),
        r.left as int == (WIDTH_PX as int) * ((kind as int) % (ATLAS_LINE_TILE_COUNT as int)),
        r.top as int == (HEIGHT_PX as int) * ((kind as int) / (ATLAS_LINE_TILE_COUNT as int)),
        r.width == WIDTH_PX as i32,
        r.height == HEIGHT_PX as i32,
{
    let line = ATLAS_LINE_TILE_COUNT as i32;
    AtlasRect {
        left: (WIDTH_PX as i32) * (kind % line),
        top: (HEIGHT_PX as i32) * (kind / line),
        width: WIDTH_PX as i32,
        height: HEIGHT_PX as i32,
    }
}

/// Distinct visible tile variants never share an atlas rectangle: the
/// catalog's kind indices are distinct, and distinct in-line kind indices
/// land on distinct atlas cells.
pub proof fn lemma_atlas_mapping_injective(t1: Tile, t2: Tile)
    requires
        !(t1 is Air),
        !(t2 is Air),
        t1 != t2,
    ensures
        t1.spec_id() != t2.spec_id(),
        spec_atlas_rect(t1.spec_id()) != spec_atlas_rect(t2.spec_id()),
{
}

} // verus!
