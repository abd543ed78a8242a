use mars_mechanica::grid::GridPos;
use mars_mechanica::knowledge::WorldKnowledge;
use mars_mechanica::miner::{
    closest_red_crystal, mine_adjacent_crystal, plan_miner_movement, MinerRobot, MinerTask,
};

fn p(x: i32, y: i32) -> GridPos {
    GridPos { x, y }
}

fn miner_at_spawn(spawn: GridPos) -> MinerRobot {
    MinerRobot {
        speed: 1000,
        target_position: spawn,
        is_moving: false,
        move_timer: 0,
        current_task: MinerTask::Idle,
        spawn_position: spawn,
        collected_resources: Vec::new(),
    }
}

/// Corridor world: empty cells (0,0) .. (2,0) and a deposit at (3,0).
fn corridor_with_deposit() -> WorldKnowledge {
    let mut k = WorldKnowledge::new();
    k.mark_empty(p(0, 0));
    k.mark_empty(p(1, 0));
    k.mark_empty(p(2, 0));
    k.mark_solid(p(3, 0), "red_crystal".to_string());
    k
}

#[test]
fn closest_deposit_is_found_by_squared_distance() {
    let mut k = WorldKnowledge::new();
    k.mark_solid(p(5, 0), "red_crystal".to_string());
    k.mark_solid(p(2, 2), "red_crystal".to_string());
    k.mark_solid(p(1, 0), "rock".to_string());
    // (2,2) has squared distance 8, (5,0) has 25; the rock does not count.
    assert_eq!(closest_red_crystal(&k, p(0, 0)), Some(p(2, 2)));
}

#[test]
fn no_deposit_known_keeps_the_miner_idle() {
    let mut k = WorldKnowledge::new();
    k.mark_empty(p(0, 0));
    k.mark_empty(p(1, 0));
    let miner = miner_at_spawn(p(0, 0));
    assert_eq!(closest_red_crystal(&k, p(0, 0)), None);
    assert!(plan_miner_movement(&miner, p(0, 0), &k).is_none());
}

#[test]
fn idle_miner_starts_moving_toward_the_deposit() {
    let k = corridor_with_deposit();
    let miner = miner_at_spawn(p(0, 0));
    let plan = plan_miner_movement(&miner, p(0, 0), &k).unwrap();
    assert_eq!(plan.new_target, p(1, 0));
    assert!(plan.is_moving);
    assert_eq!(plan.current_task, MinerTask::MovingToTarget);
}

#[test]
fn arriving_next_to_the_deposit_switches_to_mining() {
    let k = corridor_with_deposit();
    let mut miner = miner_at_spawn(p(0, 0));
    miner.current_task = MinerTask::MovingToTarget;
    let plan = plan_miner_movement(&miner, p(2, 0), &k).unwrap();
    assert_eq!(plan.new_target, p(2, 0));
    assert!(!plan.is_moving);
    assert_eq!(plan.current_task, MinerTask::Mining);
}

#[test]
fn losing_every_deposit_sends_the_miner_home() {
    let mut k = WorldKnowledge::new();
    k.mark_empty(p(0, 0));
    k.mark_empty(p(1, 0));
    let mut miner = miner_at_spawn(p(0, 0));
    miner.current_task = MinerTask::MovingToTarget;
    let plan = plan_miner_movement(&miner, p(1, 0), &k).unwrap();
    assert!(!plan.is_moving);
    assert_eq!(plan.current_task, MinerTask::ReturningToSpawn);
}

#[test]
fn mining_destroys_the_adjacent_deposit() {
    let mut k = corridor_with_deposit();
    let mined = mine_adjacent_crystal(&mut k, p(2, 0));
    assert_eq!(mined, Some(p(3, 0)));
    assert!(!k.is_solid(p(3, 0)));
    assert!(k.is_empty(p(3, 0)));
    // Nothing left to mine.
    assert_eq!(mine_adjacent_crystal(&mut k, p(2, 0)), None);
}

#[test]
fn collecting_while_idle_triggers_the_return_trip() {
    let mut miner = miner_at_spawn(p(0, 0));
    miner.collect_resource("red_crystal_item".to_string(), 1);
    assert_eq!(miner.current_task, MinerTask::ReturningToSpawn);
    assert_eq!(miner.collected_resources.len(), 1);
    assert_eq!(miner.collected_resources[0], ("red_crystal_item".to_string(), 1));
}

#[test]
fn arriving_at_spawn_deposits_and_idles() {
    let k = corridor_with_deposit();
    let mut miner = miner_at_spawn(p(0, 0));
    miner.current_task = MinerTask::ReturningToSpawn;
    miner.collected_resources.push(("red_crystal_item".to_string(), 1));
    let plan = plan_miner_movement(&miner, p(0, 0), &k).unwrap();
    assert_eq!(plan.current_task, MinerTask::Idle);
    assert!(!plan.is_moving);
    miner.apply_plan(&plan);
    assert!(miner.collected_resources.is_empty());
    assert_eq!(miner.current_task, MinerTask::Idle);
}

#[test]
fn equally_close_deposits_resolve_to_the_earliest_recorded() {
    let mut k = WorldKnowledge::new();
    // Both deposits at squared distance 4 from the origin.
    k.mark_solid(p(2, 0), "red_crystal".to_string());
    k.mark_solid(p(0, 2), "red_crystal".to_string());
    assert_eq!(closest_red_crystal(&k, p(0, 0)), Some(p(2, 0)));
    // Recorded the other way round, the other deposit wins.
    let mut k2 = WorldKnowledge::new();
    k2.mark_solid(p(0, 2), "red_crystal".to_string());
    k2.mark_solid(p(2, 0), "red_crystal".to_string());
    assert_eq!(closest_red_crystal(&k2, p(0, 0)), Some(p(0, 2)));
}

#[test]
fn return_trip_steps_onto_a_spawn_cell_not_yet_known_empty() {
    // Only the miner's own cell is known empty; the spawn cell next to it
    // has never been observed. The full path's goal exemption lets the
    // miner step home anyway instead of stalling one cell away.
    let mut k = WorldKnowledge::new();
    k.mark_empty(p(1, 0));
    let mut miner = miner_at_spawn(p(0, 0));
    miner.current_task = MinerTask::ReturningToSpawn;
    let plan = plan_miner_movement(&miner, p(1, 0), &k).unwrap();
    assert_eq!(plan.new_target, p(0, 0));
    assert!(plan.is_moving);
    assert_eq!(plan.current_task, MinerTask::ReturningToSpawn);
}

#[test]
fn partial_progress_toward_an_unreachable_deposit() {
    let mut k = WorldKnowledge::new();
    k.mark_empty(p(0, 0));
    k.mark_empty(p(1, 0));
    // A deposit with no known-empty cell adjacent to it.
    k.mark_solid(p(4, 0), "red_crystal".to_string());
    let miner = miner_at_spawn(p(0, 0));
    let plan = plan_miner_movement(&miner, p(0, 0), &k).unwrap();
    assert_eq!(plan.new_target, p(1, 0));
    assert!(plan.is_moving);
    assert_eq!(plan.current_task, MinerTask::MovingToTarget);
}

/// The full task cycle on the corridor world: Idle → MovingToTarget →
/// Mining → (collection) → ReturningToSpawn → Idle, completing in the
/// expected number of ticks: one planning tick and one move tick per path
/// cell each way, plus one tick each to enter Mining, mine, and go Idle.
#[test]
fn task_cycle_terminates_on_the_corridor() {
    let mut k = corridor_with_deposit();
    let mut miner = miner_at_spawn(p(0, 0));
    let mut pos = p(0, 0);
    let mut visited_tasks = vec![miner.current_task];
    let mut ticks = 0;
    loop {
        ticks += 1;
        assert!(ticks <= 20, "task cycle did not terminate");
        if miner.is_moving {
            // The simulation side: one full second completes the move.
            miner.advance_timer(1000);
            pos = miner.target_position;
            continue;
        }
        if miner.current_task == MinerTask::Mining {
            let mined = mine_adjacent_crystal(&mut k, pos);
            assert_eq!(mined, Some(p(3, 0)));
            // Mining done; picking up the dropped loot while idle sends the
            // miner home.
            miner.current_task = MinerTask::Idle;
            miner.collect_resource("red_crystal_item".to_string(), 1);
            assert_eq!(miner.current_task, MinerTask::ReturningToSpawn);
            continue;
        }
        match plan_miner_movement(&miner, pos, &k) {
            Some(plan) => {
                miner.apply_plan(&plan);
                if plan.current_task != *visited_tasks.last().unwrap() {
                    visited_tasks.push(plan.current_task);
                }
            },
            None => {
                // Idle with nothing to do: the cycle is over.
                break;
            },
        }
    }
    assert_eq!(pos, p(0, 0));
    assert_eq!(miner.current_task, MinerTask::Idle);
    assert!(miner.collected_resources.is_empty());
    assert_eq!(
        visited_tasks,
        vec![
            MinerTask::Idle,
            MinerTask::MovingToTarget,
            MinerTask::Mining,
            MinerTask::ReturningToSpawn,
            MinerTask::Idle,
        ]
    );
    // 2 planning + 2 move ticks out, 1 tick to enter Mining, 1 to mine,
    // 2 planning + 2 move ticks back, 1 to go Idle, 1 final idle poll.
    assert_eq!(ticks, 12);
}
