use mars_mechanica::channel::{create_robot_channels, drain_robot_results, send_robot_command};
use mars_mechanica::explorer::ExplorerRobot;
use mars_mechanica::grid::GridPos;
use mars_mechanica::knowledge::WorldKnowledge;
use mars_mechanica::worker::{process_robot_command, RobotCommand, RobotResult, WorkerState};

fn p(x: i32, y: i32) -> GridPos {
    GridPos { x, y }
}

fn explorer_at_rest() -> ExplorerRobot {
    ExplorerRobot {
        speed: 1000,
        target_position: p(0, 0),
        is_moving: false,
        move_timer: 0,
        previous_position: None,
        follow_direction: 1,
    }
}

fn explorer_command(entity: u64) -> RobotCommand {
    RobotCommand::PlanExplorerMovement {
        robot_entity: entity,
        position: p(0, 0),
        robot_data: explorer_at_rest(),
        delta_time: 16,
    }
}

fn wall_world() -> WorldKnowledge {
    let mut k = WorldKnowledge::new();
    k.mark_solid(p(1, 0), "rock".to_string());
    k.mark_empty(p(0, 1));
    k.mark_empty(p(0, -1));
    k
}

#[test]
fn update_then_plan_produces_one_result() {
    let mut state = WorkerState::new();
    let (r, keep) =
        process_robot_command(&mut state, RobotCommand::UpdateWorldKnowledge(wall_world()));
    assert!(r.is_none());
    assert!(keep);
    let (r, keep) = process_robot_command(&mut state, explorer_command(7));
    assert!(keep);
    match r {
        Some(RobotResult::ExplorerMovementPlan {
            entity,
            new_target,
            is_moving,
            previous_position,
            follow_direction,
        }) => {
            assert_eq!(entity, 7);
            assert_eq!(new_target, p(0, 1));
            assert!(is_moving);
            assert_eq!(previous_position, Some(p(0, 0)));
            assert_eq!(follow_direction, 1);
        },
        other => panic!("unexpected worker reply: {:?}", other.is_some()),
    }
}

#[test]
fn shutdown_stops_the_worker() {
    let mut state = WorkerState::new();
    let (r, keep) = process_robot_command(&mut state, RobotCommand::Shutdown);
    assert!(r.is_none());
    assert!(!keep);
}

#[test]
fn unknown_world_yields_no_plan() {
    let mut state = WorkerState::new();
    let (r, keep) = process_robot_command(&mut state, explorer_command(1));
    assert!(keep);
    assert!(r.is_none());
}

#[test]
fn full_command_channel_drops_the_request_without_blocking() {
    let (manager, _worker_channels) = create_robot_channels(2);
    assert!(send_robot_command(&manager, explorer_command(1)));
    assert!(send_robot_command(&manager, explorer_command(2)));
    // The channel is at capacity: one more request is simply dropped and
    // the tick proceeds; the call returns instead of blocking or panicking.
    assert!(!send_robot_command(&manager, explorer_command(3)));
}

#[test]
fn worker_loop_round_trip_over_the_channels() {
    let (manager, worker_channels) = create_robot_channels(16);
    let mut state = WorkerState::new();

    assert!(send_robot_command(&manager, RobotCommand::UpdateWorldKnowledge(wall_world())));
    assert!(send_robot_command(&manager, explorer_command(42)));
    assert!(send_robot_command(&manager, RobotCommand::Shutdown));

    assert!(mars_mechanica::channel::worker_poll(&worker_channels, &mut state));
    assert!(mars_mechanica::channel::worker_poll(&worker_channels, &mut state));
    assert!(!mars_mechanica::channel::worker_poll(&worker_channels, &mut state));

    let results = drain_robot_results(&manager);
    assert_eq!(results.len(), 1);
    match &results[0] {
        RobotResult::ExplorerMovementPlan { entity, new_target, .. } => {
            assert_eq!(*entity, 42);
            assert_eq!(*new_target, p(0, 1));
        },
        RobotResult::MinerMovementPlan { .. } => panic!("wrong result kind"),
    }
}

#[test]
fn draining_an_empty_result_channel_returns_nothing() {
    let (manager, _worker_channels) = create_robot_channels(4);
    assert!(drain_robot_results(&manager).is_empty());
}

#[test]
fn disconnected_peer_is_a_quiet_no_op() {
    let (manager, worker_channels) = create_robot_channels(4);
    drop(worker_channels);
    // With the worker gone, sends fail quietly and drains find nothing;
    // nothing blocks and nothing panics.
    assert!(!send_robot_command(&manager, explorer_command(1)));
    assert!(drain_robot_results(&manager).is_empty());
}

#[test]
fn malformed_agent_data_is_ignored() {
    let mut state = WorkerState::new();
    let (r, keep) = process_robot_command(
        &mut state,
        RobotCommand::UpdateWorldKnowledge(wall_world()),
    );
    assert!(r.is_none() && keep);
    let mut bad = explorer_at_rest();
    bad.follow_direction = 0;
    let cmd = RobotCommand::PlanExplorerMovement {
        robot_entity: 9,
        position: p(0, 0),
        robot_data: bad,
        delta_time: 16,
    };
    let (r, keep) = process_robot_command(&mut state, cmd);
    assert!(keep);
    assert!(r.is_none());
}
