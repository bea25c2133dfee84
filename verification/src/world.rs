//! The world grid: a dense 3D array of tiles stored in one flat, row-major
//! sequence, with bounds-checked coordinate addressing.

use vstd::prelude::*;

use crate::tile::Tile;

verus! {

use vstd::arithmetic::div_mod::lemma_fundamental_div_mod_converse;

/// A dense 3D grid of tiles. The cell `(x, y, z)` with `x` in
/// `[0, size_x)`, `y` in `[0, size_y)` (the vertical axis) and `z` in
/// `[0, size_z)` lives at linear index `x + y*size_x + z*size_x*size_y` of
/// the flat storage.
pub struct World {
    tiles: Vec<Tile>,
    size_x: usize,
    size_y: usize,
    size_z: usize,
}

/// The linear storage index of the cell `(x, y, z)` in a grid with extents
/// `sx` along x and `sy` along y.
pub open spec fn linear_index_of(sx: int, sy: int, x: int, y: int, z: int) -> int {
    x + y * sx + z * sx * sy
}

impl World {
    /// Extent of the grid along the x axis.
    pub closed spec fn sx(&self) -> int {
        self.size_x as int
    }

    /// Extent of the grid along the vertical y axis.
    pub closed spec fn sy(&self) -> int {
        self.size_y as int
    }

    /// Extent of the grid along the z axis.
    pub closed spec fn sz(&self) -> int {
        self.size_z as int
    }

    /// The flat tile storage, in linear index order.
    pub closed spec fn tiles_seq(&self) -> Seq<Tile> {
        self.tiles@
    }

    /// Well-formedness: the flat storage holds exactly one tile per cell.
    pub open spec fn wf(&self) -> bool {
        self.tiles_seq().len() == self.sx() * self.sy() * self.sz()
    }

    /// Whether `(x, y, z)` lies inside the grid's extents.
    pub open spec fn in_bounds(&self, x: int, y: int, z: int) -> bool {
        0 <= x < self.sx() && 0 <= y < self.sy() && 0 <= z < self.sz()
    }

    /// The linear storage index of the cell `(x, y, z)`.
    pub open spec fn linear_index(&self, x: int, y: int, z: int) -> int {
        linear_index_of(self.sx(), self.sy(), x, y, z)
    }

    /// The tile stored at the in-bounds cell `(x, y, z)`.
    pub open spec fn tile_at(&self, x: int, y: int, z: int) -> Tile {
        self.tiles_seq()[self.linear_index(x, y, z)]
    }

    /// The linear index of `(x, y, z)`, or `None` when the coordinate lies
    /// outside the grid.
    pub fn get_index(&self, x: i64, y: i64, z: i64) -> (r: Option<usize>)
        requires
            self.wf(),
        ensures
            r is Some <==> self.in_bounds(x as int, y as int, z as int),
            self.in_bounds(x as int, y as int, z as int) ==> {
                &&& r matches Some(i)
                &&& i as int == self.linear_index(x as int, y as int, z as int)
                &&& (i as int) < self.tiles_seq().len()
            },
    {
        if x < 0 || y < 0 || z < 0 {
            return None;
        }
        if (x as u64) >= (self.size_x as u64) || (y as u64) >= (self.size_y as u64) || (z
            as u64) >= (self.size_z as u64) {
            return None;
        }
        let n = self.tiles.len();
        proof {
            lemma_linear_index_in_range(
                self.sx(),
                self.sy(),
                self.sz(),
                x as int,
                y as int,
                z as int,
            );
            assert((y as int) * self.sx() <= linear_index_of(
                self.sx(),
                self.sy(),
                x as int,
                y as int,
                z as int,
            ) < n as int);
            assert((z as int) * self.sx() * self.sy() < n as int);
        }
        Some(x as usize + (y as usize * self.size_x) + (z as usize * self.size_x * self.size_y))
    }

    /// The tile stored at `(x, y, z)`, or `None` when the coordinate lies
    /// outside the grid: an out-of-bounds read is a recoverable miss, never
    /// a failure.
    pub fn get_tile(&self, x: i64, y: i64, z: i64) -> (r: Option<Tile>)
        requires
            self.wf(),
        ensures
            r is Some <==> self.in_bounds(x as int, y as int, z as int),
            self.in_bounds(x as int, y as int, z as int) ==> r == Some(
                self.tile_at(x as int, y as int, z as int),
            ),
    {
        match self.get_index(x, y, z) {
            Some(index) => Some(self.tiles[index]),
            None => None,
        }
    }

    /// Overwrites the tile at `(x, y, z)`; an out-of-bounds coordinate is
    /// silently ignored and leaves the grid unchanged. Every other cell
    /// keeps its tile.
    pub fn set_tile(&mut self, x: i64, y: i64, z: i64, tile: Tile)
        requires
            old(self).wf(),
        ensures
            final(self).wf(),
            final(self).sx() == old(self).sx(),
            final(self).sy() == old(self).sy(),
            final(self).sz() == old(self).sz(),
            !old(self).in_bounds(x as int, y as int, z as int) ==> *final(self) == *old(self),
            old(self).in_bounds(x as int, y as int, z as int) ==> final(self).tiles_seq() == old(
                self,
            ).tiles_seq().update(old(self).linear_index(x as int, y as int, z as int), tile),
            old(self).in_bounds(x as int, y as int, z as int) ==> final(self).tile_at(
                x as int,
                y as int,
                z as int,
            ) == tile,
            forall|a: int, b: int, c: int|
                old(self).in_bounds(a, b, c) && !(a == x as int && b == y as int && c == z as int)
                    ==> #[trigger] final(self).tile_at(a, b, c) == old(self).tile_at(a, b, c),
    {
        match self.get_index(x, y, z) {
            Some(index) => {
                self.tiles[index] = tile;
                proof {
                    let xi = x as int;
                    let yi = y as int;
                    let zi = z as int;
                    assert forall|a: int, b: int, c: int|
                        old(self).in_bounds(a, b, c) && !(a == xi && b == yi && c == zi)
                            implies #[trigger] self.tile_at(a, b, c) == old(self).tile_at(
                        a,
                        b,
                        c,
                    ) by {
                        lemma_linear_index_in_range(
                            old(self).sx(),
                            old(self).sy(),
                            old(self).sz(),
                            a,
                            b,
                            c,
                        );
                        if old(self).linear_index(a, b, c) == old(self).linear_index(xi, yi, zi) {
                            lemma_index_injective(
                                old(self).sx(),
                                old(self).sy(),
                                old(self).sz(),
                                a,
                                b,
                                c,
                                xi,
                                yi,
                                zi,
                            );
                        }
                    }
                }
            },
            None => {},
        }
    }

    /// Builds a flat-ground world: every cell on the ground level `y == 0`
    /// holds `Grass`, every other cell holds `Air`. A zero extent yields a
    /// valid, empty grid. The preconditions are exactly what lets the cell
    /// count be computed in `usize` and every cell be addressed by `i64`
    /// coordinates.
    #[verifier::loop_isolation(false)]
    pub fn new_flat(size_x: usize, size_y: usize, size_z: usize) -> (w: World)
        requires
            size_x * size_y <= usize::MAX,
            size_x * size_y * size_z <= usize::MAX,
            size_x <= i64::MAX,
            size_y <= i64::MAX,
            size_z <= i64::MAX,
        ensures
            w.wf(),
            w.sx() == size_x as int,
            w.sy() == size_y as int,
            w.sz() == size_z as int,
            forall|x: int, y: int, z: int|
                w.in_bounds(x, y, z) ==> #[trigger] w.tile_at(x, y, z) == (if y == 0 {
                    Tile::Grass
                } else {
                    Tile::Air
                }),
    {
        let total = size_x * size_y * size_z;
        let mut tiles: Vec<Tile> = Vec::new();
        let mut i: usize = 0;
        while i < total
            invariant
                i <= total,
                tiles@.len() == i,
                forall|k: int| 0 <= k < i ==> tiles@[k] == Tile::Air,
            decreases total - i,
        {
            tiles.push(Tile::Air);
            i = i + 1;
        }
        let mut world = World { tiles, size_x, size_y, size_z };
        proof {
            assert forall|a: int, b: int, c: int| world.in_bounds(a, b, c) implies #[trigger] world
                .tile_at(a, b, c) == Tile::Air by {
                lemma_linear_index_in_range(world.sx(), world.sy(), world.sz(), a, b, c);
            }
        }
        let sx64 = size_x as i64;
        let sz64 = size_z as i64;
        let mut x: i64 = 0;
        while x < sx64
            invariant
                0 <= x <= sx64,
                sx64 == size_x as i64,
                sz64 == size_z as i64,
                world.wf(),
                world.sx() == size_x as int,
                world.sy() == size_y as int,
                world.sz() == size_z as int,
                forall|a: int, b: int, c: int|
                    world.in_bounds(a, b, c) ==> #[trigger] world.tile_at(a, b, c) == (if b == 0 && a
                        < x {
                        Tile::Grass
                    } else {
                        Tile::Air
                    }),
            decreases sx64 - x,
        {
            let mut z: i64 = 0;
            while z < sz64
                invariant
                    0 <= x < sx64,
                    0 <= z <= sz64,
                    sx64 == size_x as i64,
                    sz64 == size_z as i64,
                    world.wf(),
                    world.sx() == size_x as int,
                    world.sy() == size_y as int,
                    world.sz() == size_z as int,
                    forall|a: int, b: int, c: int|
                        world.in_bounds(a, b, c) ==> #[trigger] world.tile_at(a, b, c) == (if b == 0
                            && (a < x || (a == x && c < z)) {
                            Tile::Grass
                        } else {
                            Tile::Air
                        }),
                decreases sz64 - z,
            {
                world.set_tile(x, 0, z, Tile::Grass);
                z = z + 1;
            }
            x = x + 1;
        }
        world
    }

    /// Extent of the grid along the x axis.
    pub fn size_x(&self) -> (r: usize)
        ensures
            r as int == self.sx(),
    {
        self.size_x
    }

    /// Extent of the grid along the vertical y axis.
    pub fn size_y(&self) -> (r: usize)
        ensures
            r as int == self.sy(),
    {
        self.size_y
    }

    /// Extent of the grid along the z axis.
    pub fn size_z(&self) -> (r: usize)
        ensures
            r as int == self.sz(),
    {
        self.size_z
    }
}

/// The inverse of the row-major linear index: the coordinate triple whose
/// linear index in a grid with extents `sx`, `sy` is `i`.
pub open spec fn index_to_coordinate(sx: int, sy: int, i: int) -> (int, int, int) {
    (i % sx, (i / sx) % sy, i / (sx * sy))
}

/// Coordinates and linear indices are in bijection: every coordinate inside
/// the extents maps to a linear index inside the storage, and
/// `index_to_coordinate` recovers the coordinate from that index.
pub proof fn lemma_coordinate_index_bijection(sx: int, sy: int, sz: int, x: int, y: int, z: int)
    requires
        0 <= x < sx,
        0 <= y < sy,
        0 <= z < sz,
    ensures
        0 <= linear_index_of(sx, sy, x, y, z) < sx * sy * sz,
        index_to_coordinate(sx, sy, linear_index_of(sx, sy, x, y, z)) == (x, y, z),
{
    let i = linear_index_of(sx, sy, x, y, z);
    lemma_linear_index_in_range(sx, sy, sz, x, y, z);
    assert(i == (y + sy * z) * sx + x) by (nonlinear_arith)
        requires
            i == x + y * sx + z * sx * sy,
    ;
    lemma_fundamental_div_mod_converse(i, sx, y + sy * z, x);
    assert(y + sy * z == z * sy + y) by (nonlinear_arith);
    lemma_fundamental_div_mod_converse(y + sy * z, sy, z, y);
    assert(0 <= x + y * sx < sx * sy) by (nonlinear_arith)
        requires
            0 <= x < sx,
            0 <= y < sy,
    ;
    assert(i == z * (sx * sy) + (x + y * sx)) by (nonlinear_arith)
        requires
            i == x + y * sx + z * sx * sy,
    ;
    lemma_fundamental_div_mod_converse(i, sx * sy, z, x + y * sx);
}

/// The linear index is injective over coordinates inside the extents.
pub proof fn lemma_index_injective(
    sx: int,
    sy: int,
    sz: int,
    x1: int,
    y1: int,
    z1: int,
    x2: int,
    y2: int,
    z2: int,
)
    requires
        0 <= x1 < sx,
        0 <= y1 < sy,
        0 <= z1 < sz,
        0 <= x2 < sx,
        0 <= y2 < sy,
        0 <= z2 < sz,
        linear_index_of(sx, sy, x1, y1, z1) == linear_index_of(sx, sy, x2, y2, z2),
    ensures
        x1 == x2 && y1 == y2 && z1 == z2,
{
    lemma_coordinate_index_bijection(sx, sy, sz, x1, y1, z1);
    lemma_coordinate_index_bijection(sx, sy, sz, x2, y2, z2);
}

/// For a coordinate inside the extents, the row-major linear index lies
/// inside the storage.
pub proof fn lemma_linear_index_in_range(sx: int, sy: int, sz: int, x: int, y: int, z: int)
    by (nonlinear_arith)
    requires
        0 <= x < sx,
        0 <= y < sy,
        0 <= z < sz,
    ensures
        0 <= linear_index_of(sx, sy, x, y, z) < sx * sy * sz,
        0 <= y * sx,
        0 <= z * sx,
        z * sx <= z * sx * sy,
        0 <= z * sx * sy,
{
}

} // verus!
