use mars_mechanica::terrain::{calc_cell_coordinates, is_border_cell, ChunkUtils, CELL_SIZE};

#[test]
fn cell_coordinates_scale_by_cell_size() {
    assert_eq!(calc_cell_coordinates(&0, &0), (0, 0));
    assert_eq!(calc_cell_coordinates(&3, &-2), (3 * CELL_SIZE, -2 * CELL_SIZE));
    assert_eq!(calc_cell_coordinates(&-7, &11), (-560, 880));
}

#[test]
fn border_cells_touch_the_disc_edge() {
    // Disc of radius 4 (squared 16): the centre is interior, a cell at
    // x = 4 has the neighbour (5, 0) outside, and (3, 0) has all nine
    // neighbours inside.
    assert!(!is_border_cell(0, 0, 16));
    assert!(is_border_cell(4, 0, 16));
    assert!(is_border_cell(3, 1, 16));
    assert!(!is_border_cell(1, 1, 16));
}

#[test]
fn chunk_coordinates_floor_toward_negative_infinity() {
    assert_eq!(ChunkUtils::world_to_chunk_coords(0, 0), (0, 0));
    assert_eq!(ChunkUtils::world_to_chunk_coords(15, 15), (0, 0));
    assert_eq!(ChunkUtils::world_to_chunk_coords(16, 31), (1, 1));
    assert_eq!(ChunkUtils::world_to_chunk_coords(-1, -16), (-1, -1));
    assert_eq!(ChunkUtils::world_to_chunk_coords(-17, -33), (-2, -3));
}

#[test]
fn neighbor_chunks_cover_the_three_by_three_block() {
    let n = ChunkUtils::get_neighbor_chunks(2, -1);
    assert_eq!(n.len(), 9);
    for dx in -1..=1 {
        for dy in -1..=1 {
            assert!(n.contains(&(2 + dx, -1 + dy)));
        }
    }
    assert!(!n.contains(&(4, -1)));
}
