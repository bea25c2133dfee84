//! The projector and draw-order algorithm: the isometric projection from
//! grid coordinates to pixel coordinates, and the canonical traversal that
//! turns a world grid into an ordered sequence of draw commands.

use vstd::prelude::*;

use crate::tile::spec_atlas_rect;
use crate::tile::AtlasRect;
use crate::tile::Tile;
use crate::world::World;

verus! {

/// On-screen size in pixels of one drawn tile.
pub const TILE_SIZE_PX: i64 = 32;

/// A quarter of the tile size: the basic step of the isometric projection.
pub const QUARTER_UNIT_PX: i64 = 8;

/// Horizontal pixel coordinate of the grid cell `(x, y, z)` under the fixed
/// isometric projection; it does not depend on the vertical axis `y`.
pub open spec fn spec_screen_x(x: int, z: int) -> int {
    (x - z) * (2 * (QUARTER_UNIT_PX as int))
}

/// Vertical pixel coordinate of the grid cell `(x, y, z)` under the fixed
/// isometric projection.
pub open spec fn spec_screen_y(x: int, y: int, z: int) -> int {
    (x + z - 2 * y) * (QUARTER_UNIT_PX as int)
}

/// Projects the grid coordinate `(x, y, z)` to its on-screen pixel position.
/// The two bounds in the precondition are exactly the demand that the
/// projected position fits in `i32` pixel coordinates.
pub fn tile_coords_to_px(x: i64, y: i64, z: i64) -> (r: (i32, i32))
    requires
        -0x8000_0000 <= spec_screen_x(x as int, z as int) <= 0x7fff_ffff,
        -0x8000_0000 <= spec_screen_y(x as int, y as int, z as int) <= 0x7fff_ffff,
    ensures
        r.0 as int == spec_screen_x(x as int, z as int),
        r.1 as int == spec_screen_y(x as int, y as int, z as int),
{
    let sx = ((x as i128 - z as i128) * (2 * QUARTER_UNIT_PX as i128)) as i32;
    let sy = ((x as i128 + z as i128 - 2 * y as i128) * (QUARTER_UNIT_PX as i128)) as i32;
    (sx, sy)
}

/// One draw command: paint the atlas sub-rectangle `rect` with its top-left
/// corner at pixel position `(px_x, px_y)`, at the rectangle's own size,
/// tinted opaque white, sampling the shared atlas texture. Size, tint and
/// texture are the same for every command, so only position and source
/// rectangle vary.
#[derive(Clone, Copy, PartialEq, Eq, Structural, Debug)]
pub struct DrawCommand {
    pub px_x: i32,
    pub px_y: i32,
    pub rect: AtlasRect,
}

/// The draw command for tile `t` standing at grid coordinate `(x, y, z)`,
/// or `None` for `Air`, which is never drawn.
pub open spec fn spec_tile_command(t: Tile, x: int, y: int, z: int) -> Option<DrawCommand> {
    match t.spec_texture_rect() {
        None => None,
        Some(rect) => Some(
            DrawCommand {
                px_x: spec_screen_x(x, z) as i32,
                px_y: spec_screen_y(x, y, z) as i32,
                rect,
            },
        ),
    }
}

/// The draw command of the world cell `(x, y, z)`, or `None` when that cell
/// holds `Air`.
pub open spec fn spec_cell_command(w: World, x: int, y: int, z: int) -> Option<DrawCommand> {
    spec_tile_command(w.tile_at(x, y, z), x, y, z)
}

/// An optional command as a sequence: empty for `None`, a singleton
/// otherwise.
pub open spec fn opt_command_seq(c: Option<DrawCommand>) -> Seq<DrawCommand> {
    match c {
        None => seq![],
        Some(cmd) => seq![cmd],
    }
}

/// The commands of the cells `(x, y, 0), ..., (x, y, z-1)`, in ascending
/// `z` order.
pub open spec fn spec_row_commands(w: World, y: int, x: int, z: int) -> Seq<DrawCommand>
    decreases z,
{
    if z <= 0 {
        seq![]
    } else {
        spec_row_commands(w, y, x, z - 1) + opt_command_seq(spec_cell_command(w, x, y, z - 1))
    }
}

/// The commands of the full rows `x = 0, ..., x-1` of level `y`, each row
/// traversed over the world's whole `z` extent.
pub open spec fn spec_layer_commands(w: World, y: int, x: int) -> Seq<DrawCommand>
    decreases x,
{
    if x <= 0 {
        seq![]
    } else {
        spec_layer_commands(w, y, x - 1) + spec_row_commands(w, y, x - 1, w.sz())
    }
}

/// The commands of the full levels `y = 0, ..., y-1`, each traversed over
/// the world's whole `x` and `z` extents.
pub open spec fn spec_commands_below(w: World, y: int) -> Seq<DrawCommand>
    decreases y,
{
    if y <= 0 {
        seq![]
    } else {
        spec_commands_below(w, y - 1) + spec_layer_commands(w, y - 1, w.sx())
    }
}

/// The full draw sequence of the world, in canonical traversal order:
/// `y` outermost ascending, then `x`, then `z` innermost ascending, one
/// command per non-`Air` cell. Ascending `y` is the painter's algorithm:
/// lower levels are drawn first and are therefore overpainted by higher
/// ones wherever they overlap on screen.
pub open spec fn spec_draw_sequence(w: World) -> Seq<DrawCommand> {
    spec_commands_below(w, w.sy())
}

/// The draw command for `tile` already projected to the pixel position
/// `(px_x, px_y)`: its atlas rectangle at that position, or `None` for
/// `Air`.
pub fn draw_command_at_px(tile: Tile, px_x: i32, px_y: i32) -> (r: Option<DrawCommand>)
    ensures
        tile is Air ==> r is None,
        !(tile is Air) ==> r == Some(
            DrawCommand { px_x, px_y, rect: spec_atlas_rect(tile.spec_id()) },
        ),
{
    match tile.texture_rect() {
        Some(rect) => Some(DrawCommand { px_x, px_y, rect }),
        None => None,
    }
}

/// The draw command for `tile` standing at grid coordinate `(x, y, z)`:
/// projects the coordinate and attaches the tile's atlas rectangle.
pub fn draw_command_at_grid(tile: Tile, x: i64, y: i64, z: i64) -> (r: Option<DrawCommand>)
    requires
        -0x8000_0000 <= spec_screen_x(x as int, z as int) <= 0x7fff_ffff,
        -0x8000_0000 <= spec_screen_y(x as int, y as int, z as int) <= 0x7fff_ffff,
    ensures
        r == spec_tile_command(tile, x as int, y as int, z as int),
{
    let px = tile_coords_to_px(x, y, z);
    draw_command_at_px(tile, px.0, px.1)
}

/// The draw commands of the whole world, in canonical traversal order.
/// The bound on the extents is exactly what keeps every projected pixel
/// position within `i32`.
#[verifier::loop_isolation(false)]
pub fn draw_commands(world: &World) -> (r: Vec<DrawCommand>)
    requires
        world.wf(),
        world.sx() <= 0x400_0000,
        world.sy() <= 0x400_0000,
        world.sz() <= 0x400_0000,
    ensures
        r@ == spec_draw_sequence(*world),
{
    let sx64 = world.size_x() as i64;
    let sy64 = world.size_y() as i64;
    let sz64 = world.size_z() as i64;
    let mut cmds: Vec<DrawCommand> = Vec::new();
    let mut y: i64 = 0;
    while y < sy64
        invariant
            0 <= y <= sy64,
            cmds@ == spec_commands_below(*world, y as int),
        decreases sy64 - y,
    {
        let mut x: i64 = 0;
        while x < sx64
            invariant
                0 <= x <= sx64,
                0 <= y < sy64,
                cmds@ == spec_commands_below(*world, y as int) + spec_layer_commands(
                    *world,
                    y as int,
                    x as int,
                ),
            decreases sx64 - x,
        {
            let mut z: i64 = 0;
            while z < sz64
                invariant
                    0 <= z <= sz64,
                    0 <= x < sx64,
                    0 <= y < sy64,
                    cmds@ == spec_commands_below(*world, y as int) + spec_layer_commands(
                        *world,
                        y as int,
                        x as int,
                    ) + spec_row_commands(*world, y as int, x as int, z as int),
                decreases sz64 - z,
            {
                let tile = world.get_tile(x, y, z).unwrap();
                match draw_command_at_grid(tile, x, y, z) {
                    Some(c) => cmds.push(c),
                    None => {},
                }
                proof {
                    assert(cmds@ =~= spec_commands_below(*world, y as int) + spec_layer_commands(
                        *world,
                        y as int,
                        x as int,
                    ) + spec_row_commands(*world, y as int, x as int, z as int + 1));
                }
                z = z + 1;
            }
            proof {
                assert(cmds@ =~= spec_commands_below(*world, y as int) + spec_layer_commands(
                    *world,
                    y as int,
                    x as int + 1,
                ));
            }
            x = x + 1;
        }
        proof {
            assert(cmds@ =~= spec_commands_below(*world, y as int + 1));
        }
        y = y + 1;
    }
    cmds
}

/// Draw-order determinism: the draw sequence is a function of the grid
/// state alone, so two traversals of the same state yield identical
/// ordered command sequences.
pub proof fn lemma_draw_sequence_deterministic(w1: World, w2: World)
    requires
        w1 == w2,
    ensures
        spec_draw_sequence(w1) == spec_draw_sequence(w2),
{
}

proof fn lemma_row_all_air_empty(w: World, y: int, x: int, z: int)
    requires
        w.wf(),
        forall|a: int, b: int, c: int|
            w.in_bounds(a, b, c) ==> #[trigger] w.tile_at(a, b, c) is Air,
        0 <= y < w.sy(),
        0 <= x < w.sx(),
        z <= w.sz(),
    ensures
        spec_row_commands(w, y, x, z).len() == 0,
    decreases z,
{
    if z > 0 {
        lemma_row_all_air_empty(w, y, x, z - 1);
        assert(w.in_bounds(x, y, z - 1));
    }
}

proof fn lemma_layer_all_air_empty(w: World, y: int, x: int)
    requires
        w.wf(),
        forall|a: int, b: int, c: int|
            w.in_bounds(a, b, c) ==> #[trigger] w.tile_at(a, b, c) is Air,
        0 <= y < w.sy(),
        x <= w.sx(),
    ensures
        spec_layer_commands(w, y, x).len() == 0,
    decreases x,
{
    if x > 0 {
        lemma_layer_all_air_empty(w, y, x - 1);
        lemma_row_all_air_empty(w, y, x - 1, w.sz());
    }
}

proof fn lemma_levels_all_air_empty(w: World, y: int)
    requires
        w.wf(),
        forall|a: int, b: int, c: int|
            w.in_bounds(a, b, c) ==> #[trigger] w.tile_at(a, b, c) is Air,
        y <= w.sy(),
    ensures
        spec_commands_below(w, y).len() == 0,
    decreases y,
{
    if y > 0 {
        lemma_levels_all_air_empty(w, y - 1);
        lemma_layer_all_air_empty(w, y - 1, w.sx());
    }
}

/// Empty-tile suppression: a world holding only `Air` tiles produces no
/// draw command at all.
pub proof fn lemma_all_air_draws_nothing(w: World)
    requires
        w.wf(),
        forall|a: int, b: int, c: int|
            w.in_bounds(a, b, c) ==> #[trigger] w.tile_at(a, b, c) is Air,
    ensures
        spec_draw_sequence(w).len() == 0,
{
    lemma_levels_all_air_empty(w, w.sy());
}

} // verus!
