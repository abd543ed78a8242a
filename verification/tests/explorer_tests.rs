use mars_mechanica::explorer::{plan_explorer_movement, ExplorerRobot};
use mars_mechanica::grid::GridPos;
use mars_mechanica::knowledge::WorldKnowledge;

fn p(x: i32, y: i32) -> GridPos {
    GridPos { x, y }
}

fn explorer_at_rest() -> ExplorerRobot {
    ExplorerRobot {
        speed: 1000,
        target_position: p(0, 0),
        is_moving: false,
        move_timer: 0,
        previous_position: None,
        follow_direction: 1,
    }
}

#[test]
fn clockwise_hug_of_a_single_wall() {
    // A rock to the east; first call with follow_direction +1 and no
    // previous position must turn away from the wall deterministically.
    let mut k = WorldKnowledge::new();
    k.mark_solid(p(1, 0), "rock".to_string());
    k.mark_empty(p(0, 1));
    k.mark_empty(p(0, -1));
    let robot = explorer_at_rest();
    let first = plan_explorer_movement(&robot, p(0, 0), &k);
    assert_eq!(first, Some((p(0, 1), 1)));
    // The plan never walks into the wall.
    assert_ne!(first.unwrap().0, p(1, 0));
}

#[test]
fn identical_snapshots_give_identical_plans() {
    let mut k1 = WorldKnowledge::new();
    k1.mark_solid(p(1, 0), "rock".to_string());
    k1.mark_empty(p(0, 1));
    k1.mark_empty(p(0, -1));
    // The same facts recorded in a different order.
    let mut k2 = WorldKnowledge::new();
    k2.mark_empty(p(0, -1));
    k2.mark_empty(p(0, 1));
    k2.mark_solid(p(1, 0), "rock".to_string());
    let robot = explorer_at_rest();
    let r1 = plan_explorer_movement(&robot, p(0, 0), &k1);
    let r2 = plan_explorer_movement(&robot, p(0, 0), &k2);
    assert_eq!(r1, r2);
    assert!(r1.is_some());
}

#[test]
fn no_accessible_cell_means_no_plan() {
    let mut k = WorldKnowledge::new();
    k.mark_solid(p(1, 0), "rock".to_string());
    let robot = explorer_at_rest();
    assert_eq!(plan_explorer_movement(&robot, p(0, 0), &k), None);
}

#[test]
fn mid_move_robot_gets_no_plan() {
    let mut k = WorldKnowledge::new();
    k.mark_empty(p(1, 0));
    let mut robot = explorer_at_rest();
    robot.is_moving = true;
    assert_eq!(plan_explorer_movement(&robot, p(0, 0), &k), None);
}

#[test]
fn previous_cell_is_avoided_unless_it_is_the_only_way() {
    let mut k = WorldKnowledge::new();
    k.mark_empty(p(1, 0));
    k.mark_empty(p(-1, 0));
    let mut robot = explorer_at_rest();
    robot.previous_position = Some(p(1, 0));
    // Backtracking suppressed: the fresh cell wins.
    let r = plan_explorer_movement(&robot, p(0, 0), &k);
    assert_eq!(r, Some((p(-1, 0), 1)));
    // With no alternative, backtracking is allowed as a last resort.
    let mut k2 = WorldKnowledge::new();
    k2.mark_empty(p(1, 0));
    let r2 = plan_explorer_movement(&robot, p(0, 0), &k2);
    assert_eq!(r2, Some((p(1, 0), 1)));
}

#[test]
fn open_terrain_prefers_frontier_cells() {
    // All four neighbours empty and no wall anywhere; the east and north
    // neighbours are fully surrounded by discovered cells, while the west
    // one touches undiscovered terrain.
    let mut k = WorldKnowledge::new();
    for x in -2..=2 {
        for y in -2..=2 {
            if (x, y) != (-2, 0) {
                k.mark_empty(p(x, y));
            }
        }
    }
    // (-2, 0) stays undiscovered, making (-1, 0) a frontier cell; everything
    // around (1, 0), (0, 1) and (0, -1) is discovered.
    let robot = explorer_at_rest();
    let r = plan_explorer_movement(&robot, p(0, 0), &k);
    assert_eq!(r, Some((p(-1, 0), 1)));
}

#[test]
fn timer_advance_completes_a_move() {
    let mut robot = explorer_at_rest();
    robot.is_moving = true;
    robot.move_timer = 0;
    // At 1000 milli-cells per second one cell takes one second.
    robot.advance_timer(400);
    assert!(robot.is_moving);
    assert_eq!(robot.move_timer, 400);
    robot.advance_timer(600);
    assert!(!robot.is_moving);
    assert_eq!(robot.move_timer, 0);
}

#[test]
fn apply_plan_overwrites_movement_fields() {
    let mut robot = explorer_at_rest();
    robot.move_timer = 123;
    robot.apply_plan(p(2, 3), true, Some(p(0, 0)), -1);
    assert_eq!(robot.target_position, p(2, 3));
    assert!(robot.is_moving);
    assert_eq!(robot.move_timer, 0);
    assert_eq!(robot.previous_position, Some(p(0, 0)));
    assert_eq!(robot.follow_direction, -1);
}
