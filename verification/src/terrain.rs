//! Grid/terrain coordinate helpers shared with the world generator: cell to
//! world-pixel conversion, chunk addressing, and the circular map border
//! test.

use vstd::prelude::*;

verus! {

/// Number of cells along each side of a chunk.
pub const CHUNK_SIZE: i32 = 16;

/// Number of chunks in each direction.
pub const MAP_SIZE: i32 = 8;

/// Size of each cell in pixels at 100% scaling.
pub const CELL_SIZE: i32 = 80;

/// Convert cell coordinates to world-pixel coordinates (the cell centre used
/// by the renderer).
pub fn calc_cell_coordinates(x: &i32, y: &i32) -> (r: (i32, i32))
    requires
        -26_843_545 <= *x <= 26_843_545,
        -26_843_545 <= *y <= 26_843_545,
    ensures
        r.0 == *x * CELL_SIZE,
        r.1 == *y * CELL_SIZE,
{
    (x * CELL_SIZE, y * CELL_SIZE)
}

/// Whether the cell at `(x, y)` touches the circular map border: some of its
/// eight neighbours lies outside the disc of squared radius `rsq`.
pub open spec fn border_cell(x: int, y: int, rsq: int) -> bool {
    ||| (x - 1) * (x - 1) + (y - 1) * (y - 1) > rsq
    ||| (x - 1) * (x - 1) + y * y > rsq
    ||| (x - 1) * (x - 1) + (y + 1) * (y + 1) > rsq
    ||| x * x + (y - 1) * (y - 1) > rsq
    ||| x * x + (y + 1) * (y + 1) > rsq
    ||| (x + 1) * (x + 1) + (y - 1) * (y - 1) > rsq
    ||| (x + 1) * (x + 1) + y * y > rsq
    ||| (x + 1) * (x + 1) + (y + 1) * (y + 1) > rsq
}

/// Checks whether a cell lies on the circular border by testing its eight
/// neighbours against the disc.
pub fn is_border_cell(world_x: i32, world_y: i32, radius_sq: i32) -> (r: bool)
    requires
        -32_766 <= world_x <= 32_766,
        -32_766 <= world_y <= 32_766,
    ensures
        r == border_cell(world_x as int, world_y as int, radius_sq as int),
{
    let xm = world_x - 1;
    let xp = world_x + 1;
    let ym = world_y - 1;
    let yp = world_y + 1;
    sq_sum(xm, ym) > radius_sq || sq_sum(xm, world_y) > radius_sq || sq_sum(xm, yp) > radius_sq
        || sq_sum(world_x, ym) > radius_sq || sq_sum(world_x, yp) > radius_sq || sq_sum(xp, ym)
        > radius_sq || sq_sum(xp, world_y) > radius_sq || sq_sum(xp, yp) > radius_sq
}

/// The sum of squares of two small coordinates, free of overflow.
fn sq_sum(a: i32, b: i32) -> (r: i32)
    requires
        -32_767 <= a <= 32_767,
        -32_767 <= b <= 32_767,
    ensures
        r == a * a + b * b,
{
    proof {
        assert(0 <= a * a <= 32_767 * 32_767 && 0 <= b * b <= 32_767 * 32_767) by (nonlinear_arith)
            requires
                -32_767 <= a <= 32_767,
                -32_767 <= b <= 32_767,
        ;
    }
    a * a + b * b
}

/// A ground cell of the terrain, by its cell coordinates.
pub struct TerrainCell {
    pub x: i32,
    pub y: i32,
}

/// The chunk a terrain entity belongs to; the miner's terrain-update
/// notifications are keyed by these coordinates.
pub struct TerrainChunk {
    pub chunk_x: i32,
    pub chunk_y: i32,
}

/// A lootable item lying in the world, picked up by a miner whose cell
/// coincides with it.
pub struct WorldEntityItem {
    pub entity_id: String,
    pub quantity: i32,
}

/// Chunk coordinate helpers.
pub struct ChunkUtils;

impl ChunkUtils {
    /// Convert world cell coordinates to the coordinates of the chunk that
    /// contains them (floor division, so negative coordinates land in the
    /// right chunk).
    pub fn world_to_chunk_coords(x: i32, y: i32) -> (r: (i32, i32))
        requires
            -2_147_483_000 <= x <= 2_147_483_000,
            -2_147_483_000 <= y <= 2_147_483_000,
        ensures
            r.0 * CHUNK_SIZE <= x < (r.0 + 1) * CHUNK_SIZE,
            r.1 * CHUNK_SIZE <= y < (r.1 + 1) * CHUNK_SIZE,
    {
        let chunk_x = if x < 0 && x % CHUNK_SIZE != 0 {
            (x / CHUNK_SIZE) - 1
        } else {
            x / CHUNK_SIZE
        };
        let chunk_y = if y < 0 && y % CHUNK_SIZE != 0 {
            (y / CHUNK_SIZE) - 1
        } else {
            y / CHUNK_SIZE
        };
        (chunk_x, chunk_y)
    }

    /// All nine chunks in the 3x3 block around `(chunk_x, chunk_y)`,
    /// including the chunk itself.
    pub fn get_neighbor_chunks(chunk_x: i32, chunk_y: i32) -> (r: Vec<(i32, i32)>)
        requires
            -2_147_483_000 <= chunk_x <= 2_147_483_000,
            -2_147_483_000 <= chunk_y <= 2_147_483_000,
        ensures
            r@.len() == 9,
            forall|i: int|
                0 <= i < 9 ==> #[trigger] r@[i] == (((chunk_x + i / 3 - 1) as i32, (chunk_y + i % 3
                    - 1) as i32)),
    {
        let mut neighbors: Vec<(i32, i32)> = Vec::new();
        neighbors.push((chunk_x - 1, chunk_y - 1));
        neighbors.push((chunk_x - 1, chunk_y));
        neighbors.push((chunk_x - 1, chunk_y + 1));
        neighbors.push((chunk_x, chunk_y - 1));
        neighbors.push((chunk_x, chunk_y));
        neighbors.push((chunk_x, chunk_y + 1));
        neighbors.push((chunk_x + 1, chunk_y - 1));
        neighbors.push((chunk_x + 1, chunk_y));
        neighbors.push((chunk_x + 1, chunk_y + 1));
        neighbors
    }
}

} // verus!
