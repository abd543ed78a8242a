use mars_mechanica::grid::GridPos;
use mars_mechanica::knowledge::WorldKnowledge;
use mars_mechanica::pathfinding::{find_partial_path, find_path};

fn p(x: i32, y: i32) -> GridPos {
    GridPos { x, y }
}

/// Grid with all cells of the square [-5, 5] x [-5, 5] marked empty.
fn open_grid() -> WorldKnowledge {
    let mut k = WorldKnowledge::new();
    for x in -5..=5 {
        for y in -5..=5 {
            k.mark_empty(p(x, y));
        }
    }
    k
}

#[test]
fn straight_corridor_to_deposit() {
    let mut k = WorldKnowledge::new();
    k.mark_empty(p(0, 0));
    k.mark_empty(p(1, 0));
    k.mark_empty(p(2, 0));
    k.mark_solid(p(3, 0), "red_crystal".to_string());
    let path = find_path(p(0, 0), p(3, 0), &k);
    assert_eq!(path, vec![p(1, 0), p(2, 0), p(3, 0)]);
}

#[test]
fn same_start_and_goal_gives_empty_path() {
    let k = open_grid();
    assert!(find_path(p(1, 1), p(1, 1), &k).is_empty());
}

#[test]
fn unreachable_goal_gives_empty_path() {
    let mut k = WorldKnowledge::new();
    k.mark_empty(p(0, 0));
    k.mark_solid(p(1, 0), "rock".to_string());
    // Goal far beyond the known empty cells, with no empty route.
    assert!(find_path(p(0, 0), p(4, 0), &k).is_empty());
}

#[test]
fn open_grid_paths_have_minimal_length() {
    let k = open_grid();
    // On a fully empty grid the shortest 4-connected path length is the
    // Manhattan distance.
    let cases = [
        (p(0, 0), p(3, 0), 3usize),
        (p(0, 0), p(3, 2), 5),
        (p(-4, -4), p(4, 4), 16),
        (p(2, -3), p(-1, 1), 7),
    ];
    for (start, goal, expected) in cases {
        let path = find_path(start, goal, &k);
        assert_eq!(path.len(), expected);
        assert_eq!(*path.last().unwrap(), goal);
    }
}

#[test]
fn path_route_is_connected_and_walkable() {
    let mut k = open_grid();
    // A wall splitting the grid, with a gap at (0, 4).
    for y in -5..=3 {
        k.mark_solid(p(0, y), "rock".to_string());
    }
    let path = find_path(p(-3, 0), p(3, 0), &k);
    assert!(!path.is_empty());
    let mut prev = p(-3, 0);
    for cell in &path {
        assert_eq!((cell.x - prev.x).abs() + (cell.y - prev.y).abs(), 1);
        assert!(k.is_empty(*cell));
        prev = *cell;
    }
    assert_eq!(prev, p(3, 0));
    // The detour through the gap is what makes the path this long.
    assert_eq!(path.len(), 14);
}

#[test]
fn partial_path_moves_strictly_closer_to_unreachable_goal() {
    let mut k = WorldKnowledge::new();
    k.mark_empty(p(0, 0));
    k.mark_empty(p(1, 0));
    k.mark_empty(p(2, 0));
    // The goal itself is undiscovered and unreachable.
    let goal = p(6, 0);
    let path = find_partial_path(p(0, 0), goal, &k);
    assert_eq!(path, vec![p(1, 0), p(2, 0)]);
    let end = *path.last().unwrap();
    let d_end = (end.x - goal.x).pow(2) + (end.y - goal.y).pow(2);
    let d_start = (0 - goal.x).pow(2) + (0 - goal.y).pow(2);
    assert!(d_end < d_start);
}

#[test]
fn partial_path_empty_when_nothing_improves() {
    let mut k = WorldKnowledge::new();
    k.mark_empty(p(0, 0));
    k.mark_empty(p(1, 0));
    // Only cells away from the goal are known empty.
    let path = find_partial_path(p(0, 0), p(-3, 0), &k);
    assert!(path.is_empty());
}

#[test]
fn bounded_search_reaches_a_nearby_reachable_goal() {
    let mut k = WorldKnowledge::new();
    for x in 0..=4 {
        k.mark_empty(p(x, 0));
    }
    // A known-empty goal within the depth bound is reached in full, with
    // the same length the exact search finds.
    let partial = find_partial_path(p(0, 0), p(4, 0), &k);
    let full = find_path(p(0, 0), p(4, 0), &k);
    assert_eq!(partial, vec![p(1, 0), p(2, 0), p(3, 0), p(4, 0)]);
    assert_eq!(partial.len(), full.len());
    assert_eq!(*partial.last().unwrap(), p(4, 0));
}

#[test]
fn partial_path_respects_depth_bound() {
    let mut k = WorldKnowledge::new();
    for x in 0..=40 {
        k.mark_empty(p(x, 0));
    }
    let path = find_partial_path(p(0, 0), p(40, 0), &k);
    // The bounded search explores 20 levels deep, so it can do no better
    // than the cell 20 steps along the corridor.
    assert_eq!(path.len(), 20);
    assert_eq!(*path.last().unwrap(), p(20, 0));
}
