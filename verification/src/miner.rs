//! Resource-harvesting planning: a small task state machine that navigates
//! to the nearest known red-crystal deposit, mines it, and returns to its
//! spawn cell.
//!
//! States cycle Idle → MovingToTarget → Mining → (collection) →
//! ReturningToSpawn → Idle. Navigation uses the exact breadth-first search
//! when an empty cell adjacent to the deposit is reachable, and the bounded
//! best-effort search toward the deposit itself otherwise.

use vstd::prelude::*;

use crate::grid::{adjacent, dist_sq, distance, east, in_world, north, south, west, GridPos};
use crate::knowledge::WorldKnowledge;
use crate::pathfinding::{find_partial_path, find_path};

verus! {

/// The miner's task state machine.
#[derive(Debug, Clone, Copy, PartialEq, Eq, Structural)]
pub enum MinerTask {
    Idle,
    MovingToTarget,
    Mining,
    ReturningToSpawn,
}

/// Per-agent state of a miner robot. Time is in integer milliseconds and
/// speed in milli-cells per second, as for the explorer.
#[derive(Clone)]
pub struct MinerRobot {
    /// Movement speed in milli-cells per second (1000 = one cell per second).
    pub speed: u32,
    /// The cell the robot is currently moving toward.
    pub target_position: GridPos,
    /// Whether the robot is mid-move.
    pub is_moving: bool,
    /// Milliseconds elapsed in the current move.
    pub move_timer: u32,
    /// Current task of the state machine.
    pub current_task: MinerTask,
    /// The robot's home cell, returned to after harvesting.
    pub spawn_position: GridPos,
    /// Resource-kind / quantity pairs accumulated since the last deposit.
    pub collected_resources: Vec<(String, i32)>,
}

/// One movement / task-transition decision for a miner.
pub struct MinerPlan {
    pub new_target: GridPos,
    pub is_moving: bool,
    pub current_task: MinerTask,
}

/// The material tag harvested by miners.
pub open spec fn crystal_tag() -> Seq<char> {
    "red_crystal"@
}

/// Whether `p` is a known deposit of the harvested material.
pub open spec fn is_crystal(k: &WorldKnowledge, p: GridPos) -> bool {
    k.has_solid_mat(p, crystal_tag())
}

/// Whether no deposit of the harvested material is known at all.
pub open spec fn no_crystal(k: &WorldKnowledge) -> bool {
    forall|p: GridPos| !is_crystal(k, p)
}

/// Whether a known deposit sits orthogonally next to `pos`.
pub open spec fn crystal_adjacent(k: &WorldKnowledge, pos: GridPos) -> bool {
    ||| is_crystal(k, east(pos))
    ||| is_crystal(k, west(pos))
    ||| is_crystal(k, north(pos))
    ||| is_crystal(k, south(pos))
}

/// A step plan toward a deposit: one known-empty cell next to the current
/// position, together with the promise that a deposit is known.
pub open spec fn seek_step_ok(k: &WorldKnowledge, position: GridPos, c: GridPos) -> bool {
    &&& adjacent(position, c)
    &&& k.is_empty_at(c)
    &&& c != position
    &&& !no_crystal(k)
}

/// `c` is the first cell of some qualifying best-effort path toward `g`.
pub open spec fn partial_first_step(
    k: &WorldKnowledge,
    s: GridPos,
    g: GridPos,
    c: GridPos,
) -> bool {
    exists|p: Seq<GridPos>|
        #[trigger] crate::pathfinding::partial_path_ok(k, s, g, p) && p.len() > 0 && p[0] == c
}

/// When a navigation step toward a deposit is owed: the closest known
/// deposit has a closest known-empty adjacent cell that a full path reaches,
/// or, failing that, the bounded best-effort search toward the deposit can
/// make progress.
pub open spec fn seek_succeeds(k: &WorldKnowledge, position: GridPos) -> bool {
    match closest_crystal_in(k.solid_seq(), position) {
        Option::None => false,
        Option::Some(d) => match closest_adjacent_spec(k, d, position) {
            Option::Some(a) => (exists|p: Seq<GridPos>|
                crate::pathfinding::valid_path(k, position, a, p))
                || crate::pathfinding::partial_progress_possible(k, position, d),
            Option::None => crate::pathfinding::partial_progress_possible(k, position, d),
        },
    }
}

/// What a navigation step toward a deposit is: the first cell of a shortest
/// path to the closest known-empty cell adjacent to the closest deposit, or
/// — when no full path exists — the first cell of a qualifying best-effort
/// path toward the deposit itself.
pub open spec fn seek_step_valid(k: &WorldKnowledge, position: GridPos, c: GridPos) -> bool {
    match closest_crystal_in(k.solid_seq(), position) {
        Option::None => false,
        Option::Some(d) => match closest_adjacent_spec(k, d, position) {
            Option::Some(a) => (exists|p: Seq<GridPos>|
                #[trigger] crate::pathfinding::shortest_path_ok(k, position, a, p) && p.len() > 0
                    && p[0] == c) || ((forall|p: Seq<GridPos>|
                !crate::pathfinding::valid_path(k, position, a, p)) && partial_first_step(
                k,
                position,
                d,
                c,
            )),
            Option::None => partial_first_step(k, position, d, c),
        },
    }
}

/// When a homeward step is owed: a full path to the spawn cell exists, or
/// the bounded best-effort search toward it can make progress.
pub open spec fn return_succeeds(k: &WorldKnowledge, position: GridPos, spawn: GridPos) -> bool {
    (exists|p: Seq<GridPos>| crate::pathfinding::valid_path(k, position, spawn, p))
        || crate::pathfinding::partial_progress_possible(k, position, spawn)
}

/// What a homeward step is: the first cell of a shortest path to the spawn
/// cell, or — when no full path exists — the first cell of a qualifying
/// best-effort path toward it.
pub open spec fn return_step_valid(
    k: &WorldKnowledge,
    position: GridPos,
    spawn: GridPos,
    c: GridPos,
) -> bool {
    ||| (exists|p: Seq<GridPos>|
        #[trigger] crate::pathfinding::shortest_path_ok(k, position, spawn, p) && p.len() > 0
            && p[0] == c)
    ||| ((forall|p: Seq<GridPos>| !crate::pathfinding::valid_path(k, position, spawn, p))
        && partial_first_step(k, position, spawn, c))
}

impl MinerRobot {
    /// Validity: a positive, bounded speed and an in-world spawn cell.
    pub open spec fn wf(&self) -> bool {
        &&& 0 < self.speed <= 1_000_000
        &&& in_world(self.spawn_position)
    }

    /// Advance the per-move timer by `delta_ms`; the move completes once the
    /// elapsed time reaches one cell's travel time (1/speed seconds).
    pub fn advance_timer(&mut self, delta_ms: u32)
        requires
            old(self).wf(),
        ensures
            final(self).wf(),
            !old(self).is_moving ==> *final(self) == *old(self),
            old(self).is_moving ==> {
                let t = crate::explorer::advanced_timer(old(self).move_timer, delta_ms);
                if crate::explorer::move_done(t, old(self).speed) {
                    *final(self) == MinerRobot { is_moving: false, move_timer: 0, ..*old(self) }
                } else {
                    *final(self) == MinerRobot { move_timer: t as u32, ..*old(self) }
                }
            },
    {
        if self.is_moving {
            let t: u32 = if delta_ms > u32::MAX - self.move_timer {
                u32::MAX
            } else {
                self.move_timer + delta_ms
            };
            proof {
                assert((t as u64) * (self.speed as u64) <= 4_294_967_295u64
                    * 1_000_000u64) by (nonlinear_arith)
                    requires
                        t <= 4_294_967_295u64,
                        self.speed <= 1_000_000,
                ;
            }
            if (t as u64) * (self.speed as u64) >= 1_000_000u64 {
                self.is_moving = false;
                self.move_timer = 0;
            } else {
                self.move_timer = t;
            }
        }
    }

    /// Record a collected resource; an idle miner that picks something up
    /// heads home with it.
    pub fn collect_resource(&mut self, kind: String, quantity: i32)
        ensures
            final(self).collected_resources@ == old(self).collected_resources@.push(
                (kind, quantity),
            ),
            final(self).current_task == if old(self).current_task == MinerTask::Idle {
                MinerTask::ReturningToSpawn
            } else {
                old(self).current_task
            },
            final(self).speed == old(self).speed,
            final(self).target_position == old(self).target_position,
            final(self).is_moving == old(self).is_moving,
            final(self).move_timer == old(self).move_timer,
            final(self).spawn_position == old(self).spawn_position,
    {
        self.collected_resources.push((kind, quantity));
        if self.current_task == MinerTask::Idle {
            self.current_task = MinerTask::ReturningToSpawn;
        }
    }

    /// Merge a worker-produced plan into the agent's state, resetting the
    /// move timer. Completing the return trip (ReturningToSpawn → Idle)
    /// deposits the collected resources, clearing the list.
    pub fn apply_plan(&mut self, plan: &MinerPlan)
        ensures
            final(self).target_position == plan.new_target,
            final(self).is_moving == plan.is_moving,
            final(self).move_timer == 0,
            final(self).current_task == plan.current_task,
            final(self).speed == old(self).speed,
            final(self).spawn_position == old(self).spawn_position,
            final(self).collected_resources@ == if old(self).current_task
                == MinerTask::ReturningToSpawn && plan.current_task == MinerTask::Idle {
                Seq::<(String, i32)>::empty()
            } else {
                old(self).collected_resources@
            },
    {
        if self.current_task == MinerTask::ReturningToSpawn && plan.current_task
            == MinerTask::Idle {
            self.collected_resources = Vec::new();
        }
        self.target_position = plan.new_target;
        self.is_moving = plan.is_moving;
        self.move_timer = 0;
        self.current_task = plan.current_task;
    }
}

/// The deposit the miner heads for: scanning the recorded solids in order,
/// the first deposit of the harvested material at minimal squared distance
/// from `from` (a later deposit displaces an earlier one only when strictly
/// closer).
pub open spec fn closest_crystal_in(s: Seq<(GridPos, String)>, from: GridPos) -> Option<GridPos>
    decreases s.len(),
{
    if s.len() == 0 {
        Option::None
    } else {
        let prior = closest_crystal_in(s.drop_last(), from);
        let e = s.last();
        if e.1@ == crystal_tag() {
            match prior {
                Option::None => Option::Some(e.0),
                Option::Some(b) => if dist_sq(from, e.0) < dist_sq(from, b) {
                    Option::Some(e.0)
                } else {
                    Option::Some(b)
                },
            }
        } else {
            prior
        }
    }
}

/// The known deposit closest to `from` by squared Euclidean distance
/// (earliest-recorded deposit on ties), or `None` when no deposit is known.
pub fn closest_red_crystal(knowledge: &WorldKnowledge, from: GridPos) -> (r: Option<GridPos>)
    requires
        knowledge.wf(),
        in_world(from),
    ensures
        r == closest_crystal_in(knowledge.solid_seq(), from),
        r is None <==> no_crystal(knowledge),
        r matches Some(p) ==> is_crystal(knowledge, p) && forall|q: GridPos|
            is_crystal(knowledge, q) ==> dist_sq(from, p) <= dist_sq(from, q),
{
    let tag: String = "red_crystal".to_owned();
    let mut best: Option<GridPos> = None;
    let mut best_d: i64 = 0;
    let n = knowledge.discovered_solids.len();
    let mut i: usize = 0;
    while i < n
        invariant
            knowledge.wf(),
            in_world(from),
            n == knowledge.discovered_solids@.len(),
            i <= n,
            tag@ == crystal_tag(),
            best is None ==> forall|j: int|
                0 <= j < i ==> (#[trigger] knowledge.discovered_solids@[j]).1@ != crystal_tag(),
            best matches Some(p) ==> {
                &&& exists|j: int|
                    0 <= j < i && (#[trigger] knowledge.discovered_solids@[j]).0 == p && knowledge.discovered_solids@[j].1@ == crystal_tag()
                &&& best_d == dist_sq(from, p)
                &&& forall|j: int|
                    0 <= j < i && (#[trigger] knowledge.discovered_solids@[j]).1@ == crystal_tag()
                        ==> best_d <= dist_sq(from, knowledge.discovered_solids@[j].0)
            },
            best == closest_crystal_in(knowledge.discovered_solids@.take(i as int), from),
        decreases n - i,
    {
        let ghost best_pre = best;
        if knowledge.discovered_solids[i].1 == tag {
            let p = knowledge.discovered_solids[i].0;
            proof {
                assert(knowledge.has_solid(p));
                assert(knowledge.is_discovered(p));
            }
            let d = distance(from, p);
            match best {
                None => {
                    best = Some(p);
                    best_d = d;
                },
                Some(_) => {
                    if d < best_d {
                        best = Some(p);
                        best_d = d;
                    }
                },
            }
        }
        proof {
            let s = knowledge.discovered_solids@;
            assert(s.take(i + 1).drop_last() =~= s.take(i as int));
            assert(s.take(i + 1).last() == s[i as int]);
            assert(best == closest_crystal_in(s.take(i + 1), from));
        }
        i = i + 1;
    }
    proof {
        assert(knowledge.discovered_solids@.take(n as int) =~= knowledge.discovered_solids@);
    }
    proof {
        match best {
            Option::None => {
                assert forall|p: GridPos| !is_crystal(knowledge, p) by {
                    if knowledge.has_solid_mat(p, crystal_tag()) {
                        let j = choose|j: int|
                            0 <= j < knowledge.discovered_solids@.len()
                                && knowledge.discovered_solids@[j].0 == p
                                && knowledge.discovered_solids@[j].1@ == crystal_tag();
                        assert(false);
                    }
                }
            },
            Option::Some(p) => {
                assert(is_crystal(knowledge, p));
                assert(!no_crystal(knowledge));
                assert forall|q: GridPos| is_crystal(knowledge, q) implies dist_sq(from, p)
                    <= dist_sq(from, q) by {
                    let j = choose|j: int|
                        0 <= j < knowledge.discovered_solids@.len()
                            && knowledge.discovered_solids@[j].0 == q
                            && knowledge.discovered_solids@[j].1@ == crystal_tag();
                }
            },
        }
    }
    best
}

/// Fold step of the closest-empty-adjacent choice: keep `cand` unless `c` is
/// known-empty and strictly closer to `from`.
pub open spec fn closer_empty(
    k: &WorldKnowledge,
    from: GridPos,
    cand: Option<GridPos>,
    c: GridPos,
) -> Option<GridPos> {
    if !k.is_empty_at(c) {
        cand
    } else {
        match cand {
            Option::None => Option::Some(c),
            Option::Some(b) => if dist_sq(from, c) < dist_sq(from, b) {
                Option::Some(c)
            } else {
                Option::Some(b)
            },
        }
    }
}

/// The known-empty cell orthogonally adjacent to `target` that is closest to
/// `from` (in +x, -x, +y, -y tie order).
pub open spec fn closest_adjacent_spec(
    k: &WorldKnowledge,
    target: GridPos,
    from: GridPos,
) -> Option<GridPos> {
    closer_empty(
        k,
        from,
        closer_empty(
            k,
            from,
            closer_empty(k, from, closer_empty(k, from, Option::None, east(target)), west(target)),
            north(target),
        ),
        south(target),
    )
}

/// The known-empty cell adjacent to `target` closest to `from`, if any.
pub fn closest_empty_adjacent(knowledge: &WorldKnowledge, target: GridPos, from: GridPos) -> (r:
    Option<GridPos>)
    requires
        knowledge.wf(),
        in_world(target),
        in_world(from),
    ensures
        r == closest_adjacent_spec(knowledge, target, from),
        r matches Some(c) ==> knowledge.is_empty_at(c) && adjacent(target, c),
{
    let e = GridPos { x: target.x + 1, y: target.y };
    let w = GridPos { x: target.x - 1, y: target.y };
    let n = GridPos { x: target.x, y: target.y + 1 };
    let s = GridPos { x: target.x, y: target.y - 1 };
    proof {
        assert(e == east(target) && w == west(target) && n == north(target) && s == south(target));
    }
    let mut best: Option<GridPos> = None;
    if knowledge.is_empty(e) {
        best = Some(e);
    }
    if knowledge.is_empty(w) {
        best = match best {
            None => Some(w),
            Some(b) => if distance(from, w) < distance(from, b) {
                Some(w)
            } else {
                Some(b)
            },
        };
    }
    if knowledge.is_empty(n) {
        best = match best {
            None => Some(n),
            Some(b) => if distance(from, n) < distance(from, b) {
                Some(n)
            } else {
                Some(b)
            },
        };
    }
    if knowledge.is_empty(s) {
        best = match best {
            None => Some(s),
            Some(b) => if distance(from, s) < distance(from, b) {
                Some(s)
            } else {
                Some(b)
            },
        };
    }
    best
}

/// One navigation step toward the closest known deposit: the next cell of a
/// full path to the best reachable cell adjacent to the deposit, or the next
/// cell of a bounded best-effort path toward the deposit itself. A step
/// comes back exactly when one is owed.
fn seek_crystal_step(knowledge: &WorldKnowledge, position: GridPos) -> (r: Option<GridPos>)
    requires
        knowledge.wf(),
        in_world(position),
    ensures
        r is Some <==> seek_succeeds(knowledge, position),
        r matches Some(c) ==> seek_step_ok(knowledge, position, c) && seek_step_valid(
            knowledge,
            position,
            c,
        ),
{
    let target = match closest_red_crystal(knowledge, position) {
        None => {
            return None;
        },
        Some(t) => t,
    };
    proof {
        assert(knowledge.has_solid(target));
        assert(knowledge.is_discovered(target));
    }
    match closest_empty_adjacent(knowledge, target, position) {
        Some(adjacent_pos) => {
            proof {
                assert(knowledge.is_discovered(adjacent_pos));
            }
            let path = find_path(position, adjacent_pos, knowledge);
            if path.len() > 0 {
                let c = path[0];
                proof {
                    assert(!path@.contains(position));
                    assert(path@[0] != position);
                    if c != adjacent_pos {
                        assert(knowledge.is_empty_at(c));
                    }
                    assert(crate::pathfinding::shortest_path_ok(
                        knowledge,
                        position,
                        adjacent_pos,
                        path@,
                    ));
                    assert(seek_step_valid(knowledge, position, c));
                    assert(seek_succeeds(knowledge, position));
                }
                Some(c)
            } else {
                proof {
                    if position == adjacent_pos {
                        assert forall|p: Seq<GridPos>|
                            !crate::pathfinding::valid_path(
                                knowledge,
                                position,
                                adjacent_pos,
                                p,
                            ) by {
                            if crate::pathfinding::valid_path(knowledge, position, adjacent_pos, p) {
                                assert(p[p.len() - 1] == adjacent_pos);
                                assert(p.contains(position));
                            }
                        }
                    } else {
                        assert forall|p: Seq<GridPos>|
                            !crate::pathfinding::valid_path(
                                knowledge,
                                position,
                                adjacent_pos,
                                p,
                            ) by {}
                    }
                }
                partial_step(knowledge, position, target)
            }
        },
        None => partial_step(knowledge, position, target),
    }
}

/// The first cell of the bounded best-effort path toward `target`; a step
/// comes back exactly when the bounded search can make progress.
fn partial_step(knowledge: &WorldKnowledge, position: GridPos, target: GridPos) -> (r: Option<
    GridPos,
>)
    requires
        knowledge.wf(),
        in_world(position),
        in_world(target),
    ensures
        r is Some <==> crate::pathfinding::partial_progress_possible(knowledge, position, target),
        r matches Some(c) ==> adjacent(position, c) && knowledge.is_empty_at(c) && c != position
            && partial_first_step(knowledge, position, target, c),
{
    let path = find_partial_path(position, target, knowledge);
    if path.len() > 0 {
        let c = path[0];
        proof {
            assert(!path@.contains(position));
            assert(path@[0] != position);
            assert(crate::pathfinding::partial_path_ok(knowledge, position, target, path@));
        }
        Some(c)
    } else {
        None
    }
}

/// Whether a known deposit sits orthogonally next to `pos`.
fn has_crystal_adjacent(knowledge: &WorldKnowledge, pos: GridPos) -> (r: bool)
    requires
        knowledge.wf(),
        in_world(pos),
    ensures
        r == crystal_adjacent(knowledge, pos),
{
    is_crystal_cell(knowledge, GridPos { x: pos.x + 1, y: pos.y }) || is_crystal_cell(
        knowledge,
        GridPos { x: pos.x - 1, y: pos.y },
    ) || is_crystal_cell(knowledge, GridPos { x: pos.x, y: pos.y + 1 }) || is_crystal_cell(
        knowledge,
        GridPos { x: pos.x, y: pos.y - 1 },
    )
}

/// Whether `c` is a known deposit of the harvested material.
fn is_crystal_cell(knowledge: &WorldKnowledge, c: GridPos) -> (r: bool)
    requires
        knowledge.wf(),
    ensures
        r == is_crystal(knowledge, c),
{
    let tag: String = "red_crystal".to_owned();
    match knowledge.solid_material(c) {
        Some(m) => {
            let eq = m == tag;
            proof {
                if eq {
                    assert(knowledge.has_solid_mat(c, crystal_tag()));
                } else {
                    if knowledge.has_solid_mat(c, crystal_tag()) {
                        lemma_solid_mat_unique(knowledge, c, m@, crystal_tag());
                    }
                }
            }
            eq
        },
        None => {
            proof {
                if knowledge.has_solid_mat(c, crystal_tag()) {
                    assert(knowledge.has_solid(c));
                }
            }
            false
        },
    }
}

/// With unique solid keys, a cell's recorded material tag is unique.
proof fn lemma_solid_mat_unique(k: &WorldKnowledge, c: GridPos, m1: Seq<char>, m2: Seq<char>)
    requires
        k.wf(),
        k.has_solid_mat(c, m1),
        k.has_solid_mat(c, m2),
    ensures
        m1 == m2,
{
    let i = choose|i: int|
        0 <= i < k.discovered_solids@.len() && k.discovered_solids@[i].0 == c
            && k.discovered_solids@[i].1@ == m1;
    let j = choose|j: int|
        0 <= j < k.discovered_solids@.len() && k.discovered_solids@[j].0 == c
            && k.discovered_solids@[j].1@ == m2;
    if i != j {
        assert(k.discovered_solids@[i].0 != k.discovered_solids@[j].0);
    }
}

/// Plan one miner step: `None` while the robot is mid-move, while it is
/// mining (the collection step owns that state), and when nothing useful can
/// be done; otherwise the next move or task transition:
///
/// - Idle: step toward the closest known deposit and start MovingToTarget;
///   stay idle when no deposit is known.
/// - MovingToTarget: switch to Mining when a deposit is orthogonally
///   adjacent; head home when no deposit is known any more; otherwise keep
///   stepping toward the closest deposit.
/// - ReturningToSpawn: become Idle upon arrival at the spawn cell, else step
///   toward it (exactly, or best-effort when no full path is known).
pub fn plan_miner_movement(
    robot: &MinerRobot,
    position: GridPos,
    knowledge: &WorldKnowledge,
) -> (r: Option<MinerPlan>)
    requires
        robot.wf(),
        knowledge.wf(),
        in_world(position),
    ensures
        robot.is_moving ==> r is None,
        !robot.is_moving && robot.current_task == MinerTask::Mining ==> r is None,
        !robot.is_moving && robot.current_task == MinerTask::Idle ==> {
            &&& (no_crystal(knowledge) ==> r is None)
            &&& (r is Some <==> seek_succeeds(knowledge, position))
            &&& (r matches Some(p) ==> p.current_task == MinerTask::MovingToTarget && p.is_moving
                && seek_step_ok(knowledge, position, p.new_target) && seek_step_valid(
                knowledge,
                position,
                p.new_target,
            ))
        },
        !robot.is_moving && robot.current_task == MinerTask::MovingToTarget ==> {
            if crystal_adjacent(knowledge, position) {
                r matches Some(p) && p.new_target == position && !p.is_moving && p.current_task
                    == MinerTask::Mining
            } else if no_crystal(knowledge) {
                r matches Some(p) && p.new_target == position && !p.is_moving && p.current_task
                    == MinerTask::ReturningToSpawn
            } else {
                &&& (r is Some <==> seek_succeeds(knowledge, position))
                &&& (r matches Some(p) ==> p.current_task == MinerTask::MovingToTarget
                    && p.is_moving && seek_step_ok(knowledge, position, p.new_target)
                    && seek_step_valid(knowledge, position, p.new_target))
            }
        },
        !robot.is_moving && robot.current_task == MinerTask::ReturningToSpawn ==> {
            if position == robot.spawn_position {
                r matches Some(p) && p.new_target == position && !p.is_moving && p.current_task
                    == MinerTask::Idle
            } else {
                &&& (r is Some <==> return_succeeds(knowledge, position, robot.spawn_position))
                &&& (r matches Some(p) ==> p.current_task == MinerTask::ReturningToSpawn
                    && p.is_moving && adjacent(position, p.new_target) && (knowledge.is_empty_at(
                    p.new_target,
                ) || p.new_target == robot.spawn_position) && p.new_target != position
                    && return_step_valid(knowledge, position, robot.spawn_position, p.new_target))
            }
        },
{
    if robot.is_moving {
        return None;
    }
    match robot.current_task {
        MinerTask::Idle => {
            match seek_crystal_step(knowledge, position) {
                Some(c) => Some(
                    MinerPlan {
                        new_target: c,
                        is_moving: true,
                        current_task: MinerTask::MovingToTarget,
                    },
                ),
                None => None,
            }
        },
        MinerTask::MovingToTarget => {
            if has_crystal_adjacent(knowledge, position) {
                return Some(
                    MinerPlan {
                        new_target: position,
                        is_moving: false,
                        current_task: MinerTask::Mining,
                    },
                );
            }
            match closest_red_crystal(knowledge, position) {
                None => Some(
                    MinerPlan {
                        new_target: position,
                        is_moving: false,
                        current_task: MinerTask::ReturningToSpawn,
                    },
                ),
                Some(_) => {
                    match seek_crystal_step(knowledge, position) {
                        Some(c) => Some(
                            MinerPlan {
                                new_target: c,
                                is_moving: true,
                                current_task: MinerTask::MovingToTarget,
                            },
                        ),
                        None => None,
                    }
                },
            }
        },
        MinerTask::Mining => None,
        MinerTask::ReturningToSpawn => {
            if position == robot.spawn_position {
                return Some(
                    MinerPlan {
                        new_target: position,
                        is_moving: false,
                        current_task: MinerTask::Idle,
                    },
                );
            }
            let path = find_path(position, robot.spawn_position, knowledge);
            if path.len() > 0 {
                // Step along the full path; its first cell is known-empty,
                // or it is the spawn cell itself (the path's goal), one
                // step away.
                let c = path[0];
                proof {
                    assert(!path@.contains(position));
                    assert(path@[0] != position);
                    assert(crate::pathfinding::shortest_path_ok(
                        knowledge,
                        position,
                        robot.spawn_position,
                        path@,
                    ));
                    assert(return_step_valid(knowledge, position, robot.spawn_position, c));
                }
                Some(
                    MinerPlan {
                        new_target: c,
                        is_moving: true,
                        current_task: MinerTask::ReturningToSpawn,
                    },
                )
            } else {
                proof {
                    assert forall|p: Seq<GridPos>|
                        !crate::pathfinding::valid_path(
                            knowledge,
                            position,
                            robot.spawn_position,
                            p,
                        ) by {}
                }
                match partial_step(knowledge, position, robot.spawn_position) {
                    Some(c) => Some(
                        MinerPlan {
                            new_target: c,
                            is_moving: true,
                            current_task: MinerTask::ReturningToSpawn,
                        },
                    ),
                    None => None,
                }
            }
        },
    }
}

/// The mining side effect: destroy the first known deposit orthogonally
/// adjacent to `pos` (in +x, -x, +y, -y order), turning that cell into
/// known-empty terrain. Returns the mined cell, or `None` (leaving the
/// knowledge unchanged) when no deposit is adjacent.
pub fn mine_adjacent_crystal(knowledge: &mut WorldKnowledge, pos: GridPos) -> (r: Option<GridPos>)
    requires
        old(knowledge).wf(),
        in_world(pos),
    ensures
        final(knowledge).wf(),
        r is None ==> *final(knowledge) == *old(knowledge) && !crystal_adjacent(
            old(knowledge),
            pos,
        ),
        r matches Some(c) ==> {
            &&& is_crystal(old(knowledge), c)
            &&& adjacent(pos, c)
            &&& forall|q: GridPos|
                final(knowledge).is_empty_at(q) == (old(knowledge).is_empty_at(q) || q == c)
            &&& forall|q: GridPos|
                final(knowledge).has_solid(q) == (old(knowledge).has_solid(q) && q != c)
        },
{
    let e = GridPos { x: pos.x + 1, y: pos.y };
    let w = GridPos { x: pos.x - 1, y: pos.y };
    let n = GridPos { x: pos.x, y: pos.y + 1 };
    let s = GridPos { x: pos.x, y: pos.y - 1 };
    proof {
        assert(e == east(pos) && w == west(pos) && n == north(pos) && s == south(pos));
    }
    let target: GridPos;
    if is_crystal_cell(knowledge, e) {
        target = e;
    } else if is_crystal_cell(knowledge, w) {
        target = w;
    } else if is_crystal_cell(knowledge, n) {
        target = n;
    } else if is_crystal_cell(knowledge, s) {
        target = s;
    } else {
        return None;
    }
    proof {
        assert(knowledge.has_solid(target));
        assert(knowledge.is_discovered(target));
    }
    knowledge.mark_empty(target);
    Some(target)
}

} // verus!
