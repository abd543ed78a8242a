//! Wall-following / frontier exploration planning.
//!
//! The explorer agent hugs discovered walls: among its solid neighbours it
//! picks the one with the smallest direction key, rotates that direction a
//! quarter turn according to its follow direction, and moves into the
//! resulting cell when possible, falling back to the opposite rotation
//! (flipping the follow direction) and finally to any accessible cell. In
//! open terrain it prefers cells that re-acquire a wall, then cells adjacent
//! to undiscovered terrain, then any accessible cell. The decision is a pure
//! function of the knowledge snapshot, the position, the previous position
//! and the follow direction.

use vstd::prelude::*;

use crate::grid::{east, in_world, north, south, west, GridPos};
use crate::knowledge::WorldKnowledge;

verus! {

/// Per-agent state of an explorer robot. Time is measured in integer
/// milliseconds and speed in milli-cells per second, so that planning stays
/// in integer arithmetic; the simulation boundary converts.
#[derive(Clone)]
pub struct ExplorerRobot {
    /// Movement speed in milli-cells per second (1000 = one cell per second).
    pub speed: u32,
    /// The cell the robot is currently moving toward.
    pub target_position: GridPos,
    /// Whether the robot is mid-move.
    pub is_moving: bool,
    /// Milliseconds elapsed in the current move.
    pub move_timer: u32,
    /// The cell the robot came from, used to suppress immediate backtracking.
    pub previous_position: Option<GridPos>,
    /// +1 to hug walls clockwise, -1 counter-clockwise.
    pub follow_direction: i8,
}

impl ExplorerRobot {
    /// Validity: a positive, bounded speed and a unit follow direction.
    pub open spec fn wf(&self) -> bool {
        &&& 0 < self.speed <= 1_000_000
        &&& self.follow_direction == 1 || self.follow_direction == -1
    }

    /// Advance the per-move timer by `delta_ms`; the move completes once the
    /// elapsed time reaches one cell's travel time (1/speed seconds).
    pub fn advance_timer(&mut self, delta_ms: u32)
        requires
            old(self).wf(),
        ensures
            final(self).wf(),
            !old(self).is_moving ==> *final(self) == *old(self),
            old(self).is_moving ==> {
                let t = advanced_timer(old(self).move_timer, delta_ms);
                if move_done(t, old(self).speed) {
                    *final(self) == ExplorerRobot { is_moving: false, move_timer: 0, ..*old(self) }
                } else {
                    *final(self) == ExplorerRobot { move_timer: t as u32, ..*old(self) }
                }
            },
    {
        if self.is_moving {
            let t: u32 = if delta_ms > u32::MAX - self.move_timer {
                u32::MAX
            } else {
                self.move_timer + delta_ms
            };
            proof {
                assert((t as u64) * (self.speed as u64) <= 4_294_967_295u64
                    * 1_000_000u64) by (nonlinear_arith)
                    requires
                        t <= 4_294_967_295u64,
                        self.speed <= 1_000_000,
                ;
            }
            if (t as u64) * (self.speed as u64) >= 1_000_000u64 {
                self.is_moving = false;
                self.move_timer = 0;
            } else {
                self.move_timer = t;
            }
        }
    }
}

impl ExplorerRobot {
    /// Merge a worker-produced movement plan into the agent's state,
    /// resetting the move timer.
    pub fn apply_plan(
        &mut self,
        new_target: GridPos,
        is_moving: bool,
        previous_position: Option<GridPos>,
        follow_direction: i8,
    )
        ensures
            *final(self) == (ExplorerRobot {
                speed: old(self).speed,
                target_position: new_target,
                is_moving,
                move_timer: 0,
                previous_position,
                follow_direction,
            }),
    {
        self.target_position = new_target;
        self.is_moving = is_moving;
        self.move_timer = 0;
        self.previous_position = previous_position;
        self.follow_direction = follow_direction;
    }
}

/// The per-move timer after `delta` more milliseconds, saturating.
pub open spec fn advanced_timer(timer: u32, delta: u32) -> int {
    if timer + delta > u32::MAX {
        u32::MAX as int
    } else {
        timer + delta
    }
}

/// Whether `timer` milliseconds complete a move at `speed` milli-cells per
/// second: a cell takes 1_000_000 / speed milliseconds.
pub open spec fn move_done(timer: int, speed: u32) -> bool {
    timer * speed >= 1_000_000
}

/// The cell used for backtrack suppression: the recorded previous cell, or
/// the current cell when none is recorded yet (which suppresses nothing).
pub open spec fn prev_effective(pos: GridPos, prev: Option<GridPos>) -> GridPos {
    match prev {
        Option::None => pos,
        Option::Some(p) => p,
    }
}

/// Whether some neighbour is accessible without backtracking: known-empty and
/// not the previous cell.
pub open spec fn has_fresh_accessible(k: &WorldKnowledge, pos: GridPos, pe: GridPos) -> bool {
    ||| (k.is_empty_at(east(pos)) && east(pos) != pe)
    ||| (k.is_empty_at(north(pos)) && north(pos) != pe)
    ||| (k.is_empty_at(west(pos)) && west(pos) != pe)
    ||| (k.is_empty_at(south(pos)) && south(pos) != pe)
}

/// Whether `c` counts as accessible from `pos`: known-empty, and not the
/// previous cell unless backtracking is the only option.
pub open spec fn accessible(k: &WorldKnowledge, pos: GridPos, pe: GridPos, c: GridPos) -> bool {
    k.is_empty_at(c) && (has_fresh_accessible(k, pos, pe) ==> c != pe)
}

/// Whether any neighbour of `pos` is accessible.
pub open spec fn has_accessible(k: &WorldKnowledge, pos: GridPos, pe: GridPos) -> bool {
    ||| accessible(k, pos, pe, east(pos))
    ||| accessible(k, pos, pe, north(pos))
    ||| accessible(k, pos, pe, west(pos))
    ||| accessible(k, pos, pe, south(pos))
}

/// The first accessible neighbour in the fixed +x, +y, -x, -y order.
pub open spec fn first_accessible(k: &WorldKnowledge, pos: GridPos, pe: GridPos) -> GridPos {
    if accessible(k, pos, pe, east(pos)) {
        east(pos)
    } else if accessible(k, pos, pe, north(pos)) {
        north(pos)
    } else if accessible(k, pos, pe, west(pos)) {
        west(pos)
    } else {
        south(pos)
    }
}

/// Whether some neighbour of `c` is a known solid.
pub open spec fn next_to_solid(k: &WorldKnowledge, c: GridPos) -> bool {
    ||| k.has_solid(east(c))
    ||| k.has_solid(north(c))
    ||| k.has_solid(west(c))
    ||| k.has_solid(south(c))
}

/// Whether some neighbour of `c` has never been observed (a frontier cell).
pub open spec fn next_to_unknown(k: &WorldKnowledge, c: GridPos) -> bool {
    ||| !k.is_discovered(east(c))
    ||| !k.is_discovered(north(c))
    ||| !k.is_discovered(west(c))
    ||| !k.is_discovered(south(c))
}

/// The solid neighbour direction with the smallest sort key
/// `(|dx| + |dy|) * 10 + dy * 2 + dx`, which orders the four unit directions
/// -y, -x, +x, +y. The direction is returned as an integer delta pair.
pub open spec fn wall_delta(k: &WorldKnowledge, pos: GridPos) -> Option<(int, int)> {
    if k.has_solid(south(pos)) {
        Option::Some((0int, -1int))
    } else if k.has_solid(west(pos)) {
        Option::Some((-1int, 0int))
    } else if k.has_solid(east(pos)) {
        Option::Some((1int, 0int))
    } else if k.has_solid(north(pos)) {
        Option::Some((0int, 1int))
    } else {
        Option::None
    }
}

/// The cell one `d` step from `pos`.
pub open spec fn cell_at(pos: GridPos, d: (int, int)) -> GridPos {
    GridPos { x: (pos.x + d.0) as i32, y: (pos.y + d.1) as i32 }
}

/// Quarter-turn rotation used when following clockwise.
pub open spec fn rot_cw(d: (int, int)) -> (int, int) {
    (-d.1, d.0)
}

/// Quarter-turn rotation used when following counter-clockwise.
pub open spec fn rot_ccw(d: (int, int)) -> (int, int) {
    (d.1, -d.0)
}

/// The complete exploration decision: the proposed next cell and the new
/// follow direction, or nothing when no neighbour is accessible.
pub open spec fn explorer_decision(
    k: &WorldKnowledge,
    pos: GridPos,
    prev: Option<GridPos>,
    fd: i8,
) -> Option<(GridPos, i8)> {
    let pe = prev_effective(pos, prev);
    if !has_accessible(k, pos, pe) {
        Option::None
    } else {
        match wall_delta(k, pos) {
            Option::Some(sd) => {
                let pref = cell_at(pos, if fd > 0 { rot_cw(sd) } else { rot_ccw(sd) });
                let alt = cell_at(pos, if fd > 0 { rot_ccw(sd) } else { rot_cw(sd) });
                if k.is_empty_at(pref) && pref != pe {
                    Option::Some((pref, fd))
                } else if k.is_empty_at(alt) && alt != pe {
                    Option::Some((alt, (-fd) as i8))
                } else {
                    Option::Some((first_accessible(k, pos, pe), fd))
                }
            },
            Option::None => {
                if accessible(k, pos, pe, east(pos)) && next_to_solid(k, east(pos)) {
                    Option::Some((east(pos), fd))
                } else if accessible(k, pos, pe, north(pos)) && next_to_solid(k, north(pos)) {
                    Option::Some((north(pos), fd))
                } else if accessible(k, pos, pe, west(pos)) && next_to_solid(k, west(pos)) {
                    Option::Some((west(pos), fd))
                } else if accessible(k, pos, pe, south(pos)) && next_to_solid(k, south(pos)) {
                    Option::Some((south(pos), fd))
                } else if accessible(k, pos, pe, east(pos)) && next_to_unknown(k, east(pos)) {
                    Option::Some((east(pos), fd))
                } else if accessible(k, pos, pe, north(pos)) && next_to_unknown(k, north(pos)) {
                    Option::Some((north(pos), fd))
                } else if accessible(k, pos, pe, west(pos)) && next_to_unknown(k, west(pos)) {
                    Option::Some((west(pos), fd))
                } else if accessible(k, pos, pe, south(pos)) && next_to_unknown(k, south(pos)) {
                    Option::Some((south(pos), fd))
                } else {
                    Option::Some((first_accessible(k, pos, pe), fd))
                }
            },
        }
    }
}

/// Plan one exploration step: `None` while the robot is mid-move or boxed
/// in; otherwise the next cell to move into and the updated follow
/// direction, exactly as `explorer_decision` describes.
pub fn plan_explorer_movement(
    robot: &ExplorerRobot,
    position: GridPos,
    knowledge: &WorldKnowledge,
) -> (r: Option<(GridPos, i8)>)
    requires
        robot.wf(),
        knowledge.wf(),
        in_world(position),
    ensures
        r == if robot.is_moving {
            Option::<(GridPos, i8)>::None
        } else {
            explorer_decision(
                knowledge,
                position,
                robot.previous_position,
                robot.follow_direction,
            )
        },
        r matches Some((c, f)) ==> knowledge.is_empty_at(c) && c != position && (f == 1 || f
            == -1),
{
    if robot.is_moving {
        return None;
    }
    let pe = match robot.previous_position {
        Some(p) => p,
        None => position,
    };
    let fd = robot.follow_direction;
    let e = GridPos { x: position.x + 1, y: position.y };
    let n = GridPos { x: position.x, y: position.y + 1 };
    let w = GridPos { x: position.x - 1, y: position.y };
    let s = GridPos { x: position.x, y: position.y - 1 };
    proof {
        assert(e == east(position) && n == north(position) && w == west(position) && s == south(
            position,
        ));
    }
    let fresh = (knowledge.is_empty(e) && e != pe) || (knowledge.is_empty(n) && n != pe) || (
    knowledge.is_empty(w) && w != pe) || (knowledge.is_empty(s) && s != pe);
    let acc_e = knowledge.is_empty(e) && (!fresh || e != pe);
    let acc_n = knowledge.is_empty(n) && (!fresh || n != pe);
    let acc_w = knowledge.is_empty(w) && (!fresh || w != pe);
    let acc_s = knowledge.is_empty(s) && (!fresh || s != pe);
    if !(acc_e || acc_n || acc_w || acc_s) {
        return None;
    }
    let first_acc = if acc_e {
        e
    } else if acc_n {
        n
    } else if acc_w {
        w
    } else {
        s
    };
    proof {
        assert(first_acc == first_accessible(knowledge, position, pe));
    }
    // Wall-following branch: some orthogonal neighbour is a known solid.
    if knowledge.is_solid(s) || knowledge.is_solid(w) || knowledge.is_solid(e)
        || knowledge.is_solid(n) {
        let (pref, alt): (GridPos, GridPos) = if knowledge.is_solid(s) {
            if fd > 0 {
                (e, w)
            } else {
                (w, e)
            }
        } else if knowledge.is_solid(w) {
            if fd > 0 {
                (s, n)
            } else {
                (n, s)
            }
        } else if knowledge.is_solid(e) {
            if fd > 0 {
                (n, s)
            } else {
                (s, n)
            }
        } else {
            if fd > 0 {
                (w, e)
            } else {
                (e, w)
            }
        };
        proof {
            let sd = wall_delta(knowledge, position)->Some_0;
            assert(pref == cell_at(position, if fd > 0 { rot_cw(sd) } else { rot_ccw(sd) }));
            assert(alt == cell_at(position, if fd > 0 { rot_ccw(sd) } else { rot_cw(sd) }));
        }
        if knowledge.is_empty(pref) && pref != pe {
            Some((pref, fd))
        } else if knowledge.is_empty(alt) && alt != pe {
            Some((alt, -fd))
        } else {
            Some((first_acc, fd))
        }
    } else {
        // Open-terrain branch: re-acquire a wall, else seek the frontier,
        // else take any accessible cell.
        if acc_e && wall_adjacent(knowledge, e) {
            Some((e, fd))
        } else if acc_n && wall_adjacent(knowledge, n) {
            Some((n, fd))
        } else if acc_w && wall_adjacent(knowledge, w) {
            Some((w, fd))
        } else if acc_s && wall_adjacent(knowledge, s) {
            Some((s, fd))
        } else if acc_e && unknown_adjacent(knowledge, e) {
            Some((e, fd))
        } else if acc_n && unknown_adjacent(knowledge, n) {
            Some((n, fd))
        } else if acc_w && unknown_adjacent(knowledge, w) {
            Some((w, fd))
        } else if acc_s && unknown_adjacent(knowledge, s) {
            Some((s, fd))
        } else {
            Some((first_acc, fd))
        }
    }
}

/// Whether some orthogonal neighbour of `c` is a known solid.
fn wall_adjacent(k: &WorldKnowledge, c: GridPos) -> (r: bool)
    requires
        in_world(c),
    ensures
        r == next_to_solid(k, c),
{
    k.is_solid(GridPos { x: c.x + 1, y: c.y }) || k.is_solid(GridPos { x: c.x, y: c.y + 1 })
        || k.is_solid(GridPos { x: c.x - 1, y: c.y }) || k.is_solid(
        GridPos { x: c.x, y: c.y - 1 },
    )
}

/// Whether some orthogonal neighbour of `c` has never been observed.
fn unknown_adjacent(k: &WorldKnowledge, c: GridPos) -> (r: bool)
    requires
        in_world(c),
    ensures
        r == next_to_unknown(k, c),
{
    !k.is_discovered_cell(GridPos { x: c.x + 1, y: c.y }) || !k.is_discovered_cell(
        GridPos { x: c.x, y: c.y + 1 },
    ) || !k.is_discovered_cell(GridPos { x: c.x - 1, y: c.y }) || !k.is_discovered_cell(
        GridPos { x: c.x, y: c.y - 1 },
    )
}

/// Wall-following determinism: two knowledge snapshots that agree on which
/// cells are empty, solid, and discovered yield the same exploration
/// decision for the same position, previous position and follow direction —
/// the decision depends on nothing else.
pub proof fn lemma_explorer_deterministic(
    k1: &WorldKnowledge,
    k2: &WorldKnowledge,
    pos: GridPos,
    prev: Option<GridPos>,
    fd: i8,
)
    requires
        forall|p: GridPos| #[trigger] k1.is_empty_at(p) == k2.is_empty_at(p),
        forall|p: GridPos| #[trigger] k1.has_solid(p) == k2.has_solid(p),
        forall|p: GridPos| #[trigger] k1.is_discovered(p) == k2.is_discovered(p),
    ensures
        explorer_decision(k1, pos, prev, fd) == explorer_decision(k2, pos, prev, fd),
{
}

} // verus!
