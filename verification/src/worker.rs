//! The planning worker and its message protocol.
//!
//! The simulation sends `RobotCommand`s into a bounded channel; a dedicated
//! worker (driven by `worker_poll`, typically from a background thread)
//! drains them, consults its own copy of the world knowledge, runs the
//! matching planner and pushes at most one `RobotResult` per command into a
//! bounded result channel. Channel sends never block: a full channel drops
//! that tick's request, which the simulation simply reissues next tick.
//! A malformed command (one whose payload fails its validity check) is
//! ignored rather than trusted. Only `Shutdown` stops the worker.

use vstd::prelude::*;

use crate::explorer::{explorer_decision, ExplorerRobot};
use crate::grid::{adjacent, check_in_world, in_world, GridPos};
use crate::knowledge::{sanitize_knowledge, WorldKnowledge};
use crate::miner::{plan_miner_movement, MinerPlan, MinerRobot, MinerTask};

verus! {

/// How long one receive call may wait for a command, so that the worker
/// wakes periodically even when idle.
pub const COMMAND_POLL_TIMEOUT_MS: u64 = 100;

/// A planning request or control message for the worker. Times are in
/// milliseconds, as everywhere in the planning core.
pub enum RobotCommand {
    PlanExplorerMovement {
        robot_entity: u64,
        position: GridPos,
        robot_data: ExplorerRobot,
        delta_time: u32,
    },
    PlanMinerMovement { robot_entity: u64, position: GridPos, robot_data: MinerRobot, delta_time: u32 },
    UpdateWorldKnowledge(WorldKnowledge),
    Shutdown,
}

/// A planning decision produced by the worker, to be merged into the
/// matching agent's state by the simulation.
pub enum RobotResult {
    ExplorerMovementPlan {
        entity: u64,
        new_target: GridPos,
        is_moving: bool,
        previous_position: Option<GridPos>,
        follow_direction: i8,
    },
    MinerMovementPlan { entity: u64, new_target: GridPos, is_moving: bool, current_task: MinerTask },
}

/// Validity of a command's payload.
pub open spec fn command_wf(cmd: &RobotCommand) -> bool {
    match cmd {
        RobotCommand::PlanExplorerMovement { position, robot_data, .. } => robot_data.wf()
            && in_world(*position),
        RobotCommand::PlanMinerMovement { position, robot_data, .. } => robot_data.wf()
            && in_world(*position),
        RobotCommand::UpdateWorldKnowledge(_) => true,
        RobotCommand::Shutdown => true,
    }
}

/// The state owned by the worker: its canonical copy of the world knowledge.
pub struct WorkerState {
    pub knowledge: WorldKnowledge,
}

impl WorkerState {
    /// Validity: the knowledge invariant holds.
    pub open spec fn wf(&self) -> bool {
        self.knowledge.wf()
    }

    /// A worker that knows nothing yet.
    pub fn new() -> (r: WorkerState)
        ensures
            r.wf(),
    {
        WorkerState { knowledge: WorldKnowledge::new() }
    }
}

/// What the worker replies to an explorer planning request: one movement
/// plan exactly when the wall-following decision proposes a move.
pub open spec fn explorer_response(
    k: &WorldKnowledge,
    entity: u64,
    position: GridPos,
    robot: ExplorerRobot,
) -> Option<RobotResult> {
    if robot.is_moving {
        Option::None
    } else {
        match explorer_decision(k, position, robot.previous_position, robot.follow_direction) {
            Option::Some((c, f)) => Option::Some(
                RobotResult::ExplorerMovementPlan {
                    entity,
                    new_target: c,
                    is_moving: true,
                    previous_position: Option::Some(position),
                    follow_direction: f,
                },
            ),
            Option::None => Option::None,
        }
    }
}

/// What a worker reply to a miner planning request must look like, mirroring
/// the planner's contract: the reply carries the request's entity; every
/// movement step goes to an adjacent cell that is known-empty or the
/// agent's own spawn cell; and a reply is owed exactly when the state
/// machine has a forced transition or a navigation step exists.
pub open spec fn miner_response_ok(
    k: &WorldKnowledge,
    entity: u64,
    position: GridPos,
    robot: MinerRobot,
    r: Option<RobotResult>,
) -> bool {
    &&& (r matches Some(res) ==> res matches RobotResult::MinerMovementPlan { entity: e, .. }
        && e == entity)
    &&& (robot.is_moving ==> r is None)
    &&& (!robot.is_moving && robot.current_task == MinerTask::Mining ==> r is None)
    &&& (r matches Some(RobotResult::MinerMovementPlan { is_moving: true, new_target, .. }) ==>
        adjacent(position, new_target) && (k.is_empty_at(new_target) || new_target
            == robot.spawn_position) && new_target != position)
    &&& (!robot.is_moving && robot.current_task == MinerTask::Idle ==> (r is Some
        <==> crate::miner::seek_succeeds(k, position)))
    &&& (!robot.is_moving && robot.current_task == MinerTask::MovingToTarget
        && !crate::miner::crystal_adjacent(k, position) && !crate::miner::no_crystal(k) ==> (
    r is Some <==> crate::miner::seek_succeeds(k, position)))
    &&& (!robot.is_moving && robot.current_task == MinerTask::ReturningToSpawn && position
        != robot.spawn_position ==> (r is Some <==> crate::miner::return_succeeds(
        k,
        position,
        robot.spawn_position,
    )))
    &&& (!robot.is_moving && robot.current_task == MinerTask::ReturningToSpawn && position
        == robot.spawn_position ==> (r matches Some(RobotResult::MinerMovementPlan {
        new_target,
        is_moving,
        current_task,
        ..
    }) && new_target == position && !is_moving && current_task == MinerTask::Idle))
    &&& (!robot.is_moving && robot.current_task == MinerTask::MovingToTarget
        && crate::miner::crystal_adjacent(k, position) ==> (r matches Some(
        RobotResult::MinerMovementPlan { new_target, is_moving, current_task, .. },
    ) && new_target == position && !is_moving && current_task == MinerTask::Mining))
}

/// Process one command against the worker state: replace the knowledge on an
/// update (sanitized, so the invariant cannot be broken from outside), run
/// the matching planner on a planning request, stop on `Shutdown`. Returns
/// the reply to send, if any, and whether the worker should keep running.
pub fn process_robot_command(state: &mut WorkerState, command: RobotCommand) -> (r: (
    Option<RobotResult>,
    bool,
))
    requires
        old(state).wf(),
    ensures
        final(state).wf(),
        match command {
            RobotCommand::UpdateWorldKnowledge(k) => {
                &&& r.0 is None
                &&& r.1
                &&& (k.wf() ==> {
                    &&& forall|p: GridPos|
                        #[trigger] final(state).knowledge.is_discovered(p) == k.is_discovered(p)
                    &&& forall|p: GridPos|
                        #[trigger] final(state).knowledge.is_empty_at(p) == k.is_empty_at(p)
                    &&& forall|p: GridPos, m: Seq<char>|
                        #[trigger] final(state).knowledge.has_solid_mat(p, m) == k.has_solid_mat(
                            p,
                            m,
                        )
                    &&& final(state).knowledge.queue() == k.queue()
                })
            },
            RobotCommand::Shutdown => *final(state) == *old(state) && r.0 is None && !r.1,
            RobotCommand::PlanExplorerMovement { robot_entity, position, robot_data, .. } => {
                &&& *final(state) == *old(state)
                &&& r.1
                &&& (command_wf(&command) ==> r.0 == explorer_response(
                    &old(state).knowledge,
                    robot_entity,
                    position,
                    robot_data,
                ))
                &&& (!command_wf(&command) ==> r.0 is None)
            },
            RobotCommand::PlanMinerMovement { robot_entity, position, robot_data, .. } => {
                &&& *final(state) == *old(state)
                &&& r.1
                &&& (command_wf(&command) ==> miner_response_ok(
                    &old(state).knowledge,
                    robot_entity,
                    position,
                    robot_data,
                    r.0,
                ))
                &&& (!command_wf(&command) ==> r.0 is None)
            },
        },
{
    match command {
        RobotCommand::UpdateWorldKnowledge(new_knowledge) => {
            state.knowledge = sanitize_knowledge(&new_knowledge);
            (None, true)
        },
        RobotCommand::PlanExplorerMovement { robot_entity, position, robot_data, delta_time: _ } => {
            if !(check_in_world(position) && explorer_data_ok(&robot_data)) {
                return (None, true);
            }
            match crate::explorer::plan_explorer_movement(&robot_data, position, &state.knowledge) {
                Some((c, f)) => (
                    Some(
                        RobotResult::ExplorerMovementPlan {
                            entity: robot_entity,
                            new_target: c,
                            is_moving: true,
                            previous_position: Some(position),
                            follow_direction: f,
                        },
                    ),
                    true,
                ),
                None => (None, true),
            }
        },
        RobotCommand::PlanMinerMovement { robot_entity, position, robot_data, delta_time: _ } => {
            if !(check_in_world(position) && miner_data_ok(&robot_data)) {
                return (None, true);
            }
            match plan_miner_movement(&robot_data, position, &state.knowledge) {
                Some(plan) => (
                    Some(
                        RobotResult::MinerMovementPlan {
                            entity: robot_entity,
                            new_target: plan.new_target,
                            is_moving: plan.is_moving,
                            current_task: plan.current_task,
                        },
                    ),
                    true,
                ),
                None => (None, true),
            }
        },
        RobotCommand::Shutdown => (None, false),
    }
}

/// Runtime check for `ExplorerRobot::wf`.
fn explorer_data_ok(robot: &ExplorerRobot) -> (r: bool)
    ensures
        r == robot.wf(),
{
    0 < robot.speed && robot.speed <= 1_000_000 && (robot.follow_direction == 1
        || robot.follow_direction == -1)
}

/// Runtime check for `MinerRobot::wf`.
fn miner_data_ok(robot: &MinerRobot) -> (r: bool)
    ensures
        r == robot.wf(),
{
    0 < robot.speed && robot.speed <= 1_000_000 && check_in_world(robot.spawn_position)
}

} // verus!
