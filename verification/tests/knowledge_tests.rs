use mars_mechanica::grid::GridPos;
use mars_mechanica::knowledge::WorldKnowledge;

fn p(x: i32, y: i32) -> GridPos {
    GridPos { x, y }
}

#[test]
fn solid_and_empty_stay_disjoint() {
    let mut k = WorldKnowledge::new();
    k.mark_solid(p(1, 1), "rock".to_string());
    assert!(k.is_solid(p(1, 1)));
    assert!(!k.is_empty(p(1, 1)));

    k.mark_empty(p(1, 1));
    assert!(!k.is_solid(p(1, 1)));
    assert!(k.is_empty(p(1, 1)));

    k.mark_solid(p(1, 1), "basalt".to_string());
    assert!(k.is_solid(p(1, 1)));
    assert!(!k.is_empty(p(1, 1)));
}

#[test]
fn repeated_marks_accumulate_without_duplicates() {
    let mut k = WorldKnowledge::new();
    for _ in 0..3 {
        k.mark_empty(p(0, 0));
        k.mark_empty(p(2, 0));
        k.mark_solid(p(1, 0), "rock".to_string());
    }
    assert!(k.is_empty(p(0, 0)));
    assert!(k.is_empty(p(2, 0)));
    assert!(k.is_solid(p(1, 0)));
    assert!(!k.is_empty(p(1, 0)));
}

#[test]
fn marked_cells_are_discovered() {
    let mut k = WorldKnowledge::new();
    assert!(!k.is_discovered_cell(p(4, 4)));
    k.mark_discovered(p(4, 4));
    assert!(k.is_discovered_cell(p(4, 4)));
    k.mark_solid(p(5, 4), "olivine".to_string());
    assert!(k.is_discovered_cell(p(5, 4)));
    k.mark_empty(p(6, 4));
    assert!(k.is_discovered_cell(p(6, 4)));
}

#[test]
fn solid_material_reports_latest_tag() {
    let mut k = WorldKnowledge::new();
    assert_eq!(k.solid_material(p(2, 2)), None);
    k.mark_solid(p(2, 2), "rock".to_string());
    assert_eq!(k.solid_material(p(2, 2)), Some("rock".to_string()));
    k.mark_solid(p(2, 2), "red_crystal".to_string());
    assert_eq!(k.solid_material(p(2, 2)), Some("red_crystal".to_string()));
    k.mark_empty(p(2, 2));
    assert_eq!(k.solid_material(p(2, 2)), None);
}

#[test]
fn exploration_queue_is_first_in_first_out() {
    let mut k = WorldKnowledge::new();
    assert_eq!(k.take_next_exploration(), None);
    k.push_exploration_cell(p(1, 0));
    k.push_exploration_cell(p(2, 0));
    assert_eq!(k.take_next_exploration(), Some(p(1, 0)));
    assert_eq!(k.take_next_exploration(), Some(p(2, 0)));
    assert_eq!(k.take_next_exploration(), None);
}

#[test]
fn sanitize_preserves_well_formed_snapshots() {
    let mut k = WorldKnowledge::new();
    k.mark_empty(p(0, 0));
    k.mark_solid(p(1, 0), "red_crystal".to_string());
    k.push_exploration_cell(p(3, 3));
    let r = mars_mechanica::knowledge::sanitize_knowledge(&k);
    assert!(r.is_empty(p(0, 0)));
    assert!(r.is_solid(p(1, 0)));
    assert_eq!(r.solid_material(p(1, 0)), Some("red_crystal".to_string()));
    assert!(r.is_discovered_cell(p(3, 3)) == k.is_discovered_cell(p(3, 3)));
}

#[test]
fn sanitize_drops_malformed_entries() {
    // A snapshot assembled by hand, with a cell recorded as both solid and
    // empty and an out-of-range coordinate: the rebuilt knowledge keeps the
    // invariant (the later empty mark wins, as in the marking operations).
    let snapshot = WorldKnowledge {
        discovered_cells: vec![p(0, 0), p(1, 0)],
        discovered_solids: vec![(p(1, 0), "rock".to_string())],
        discovered_empty: vec![p(1, 0)],
        exploration_queue: vec![p(2_000_000_000, 0)],
    };
    let r = mars_mechanica::knowledge::sanitize_knowledge(&snapshot);
    assert!(!(r.is_solid(p(1, 0)) && r.is_empty(p(1, 0))));
}
