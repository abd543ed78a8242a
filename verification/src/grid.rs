//! Integer grid coordinates and 4-connected adjacency.
//!
//! All planning operates on integer cell coordinates; conversion from
//! continuous world coordinates happens at the simulation boundary.

use vstd::prelude::*;

verus! {

/// Largest coordinate magnitude the planning core works with. The generated
/// world is a small disc of cells, so this bound is generous; it keeps every
/// coordinate computation (neighbours, squared distances) inside `i32` and
/// `i64` ranges.
pub const COORD_LIMIT: i32 = 1_000_000_000;

/// An integer 2D cell coordinate.
#[derive(Clone, Copy, Debug, PartialEq, Eq, Structural, Hash)]
pub struct GridPos {
    pub x: i32,
    pub y: i32,
}

/// A position all of whose coordinates are within the world bound.
pub open spec fn in_world(p: GridPos) -> bool {
    -COORD_LIMIT <= p.x <= COORD_LIMIT && -COORD_LIMIT <= p.y <= COORD_LIMIT
}

/// The cell one step in +x direction.
pub open spec fn east(p: GridPos) -> GridPos {
    GridPos { x: (p.x + 1) as i32, y: p.y }
}

/// The cell one step in -x direction.
pub open spec fn west(p: GridPos) -> GridPos {
    GridPos { x: (p.x - 1) as i32, y: p.y }
}

/// The cell one step in +y direction.
pub open spec fn north(p: GridPos) -> GridPos {
    GridPos { x: p.x, y: (p.y + 1) as i32 }
}

/// The cell one step in -y direction.
pub open spec fn south(p: GridPos) -> GridPos {
    GridPos { x: p.x, y: (p.y - 1) as i32 }
}

/// 4-connected adjacency: `b` is one orthogonal step from `a`.
pub open spec fn adjacent(a: GridPos, b: GridPos) -> bool {
    b == east(a) || b == north(a) || b == west(a) || b == south(a)
}

/// Squared Euclidean distance between two cells, as a mathematical integer.
pub open spec fn dist_sq(a: GridPos, b: GridPos) -> int {
    (a.x - b.x) * (a.x - b.x) + (a.y - b.y) * (a.y - b.y)
}

impl GridPos {
    pub fn new(x: i32, y: i32) -> (r: GridPos)
        ensures
            r == (GridPos { x, y }),
    {
        GridPos { x, y }
    }
}

/// Runtime check for `in_world`.
pub fn check_in_world(p: GridPos) -> (r: bool)
    ensures
        r == in_world(p),
{
    p.x >= -COORD_LIMIT && p.x <= COORD_LIMIT && p.y >= -COORD_LIMIT && p.y <= COORD_LIMIT
}

/// The four orthogonal neighbours of `pos`, in the fixed exploration order
/// +x, -x, +y, -y.
pub fn get_adjacent_cells(pos: GridPos) -> (r: Vec<GridPos>)
    requires
        in_world(pos),
    ensures
        r@.len() == 4,
        r@[0] == east(pos),
        r@[1] == west(pos),
        r@[2] == north(pos),
        r@[3] == south(pos),
{
    let mut r: Vec<GridPos> = Vec::new();
    r.push(GridPos { x: pos.x + 1, y: pos.y });
    r.push(GridPos { x: pos.x - 1, y: pos.y });
    r.push(GridPos { x: pos.x, y: pos.y + 1 });
    r.push(GridPos { x: pos.x, y: pos.y - 1 });
    r
}

/// Squared Euclidean distance, computed without floating point.
pub fn distance(a: GridPos, b: GridPos) -> (d: i64)
    requires
        in_world(a),
        in_world(b),
    ensures
        d == dist_sq(a, b),
{
    let dx: i64 = a.x as i64 - b.x as i64;
    let dy: i64 = a.y as i64 - b.y as i64;
    proof {
        assert(0 <= dx * dx <= 4_000_000_000_000_000_000 && 0 <= dy * dy
            <= 4_000_000_000_000_000_000) by (nonlinear_arith)
            requires
                -2_000_000_000 <= dx <= 2_000_000_000,
                -2_000_000_000 <= dy <= 2_000_000_000,
        ;
    }
    dx * dx + dy * dy
}

} // verus!
