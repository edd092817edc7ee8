use game_of_life::{Cell, Universe};

fn dead_grid(width: u32, height: u32) -> Universe {
    let cells = vec![Cell::Dead; (width * height) as usize];
    Universe::from_cells(width, height, cells)
}

fn alive_grid(width: u32, height: u32) -> Universe {
    let cells = vec![Cell::Alive; (width * height) as usize];
    Universe::from_cells(width, height, cells)
}

#[test]
fn construction_len_matches_dimensions() {
    let u = Universe::from_cells(3, 2, vec![Cell::Dead; 6]);
    assert_eq!(u.len(), 6);
    assert_eq!(u.width(), 3);
    assert_eq!(u.height(), 2);

    let v = Universe::from_cells(7, 5, vec![Cell::Alive; 35]);
    assert_eq!(v.len(), 35);
}

#[test]
fn default_grid_is_seeded_64_by_64() {
    let u = Universe::new();
    assert_eq!(u.len(), 4096);
    assert_eq!(u.width(), 64);
    assert_eq!(u.height(), 64);
    let cells = u.get_cells();
    for i in 0..4096 {
        let expected = if i % 2 == 0 || i % 7 == 0 {
            Cell::Alive
        } else {
            Cell::Dead
        };
        assert_eq!(cells[i], expected);
    }
}

#[test]
fn default_trait_matches_new() {
    let a = Universe::default();
    let b = Universe::new();
    assert_eq!(a.get_cells(), b.get_cells());
    assert_eq!(a.width(), b.width());
    assert_eq!(a.height(), b.height());
}

#[test]
fn get_index_is_row_major() {
    let u = dead_grid(4, 3);
    assert_eq!(u.get_index(0, 0), 0);
    assert_eq!(u.get_index(0, 3), 3);
    assert_eq!(u.get_index(1, 0), 4);
    assert_eq!(u.get_index(2, 3), 11);
}

#[test]
fn dead_grid_has_no_live_neighbors() {
    let u = dead_grid(5, 4);
    for row in 0..4 {
        for col in 0..5 {
            assert_eq!(u.live_neighbor_count(row, col), 0);
        }
    }
}

#[test]
fn all_alive_3x3_every_cell_sees_8() {
    let u = alive_grid(3, 3);
    for row in 0..3 {
        for col in 0..3 {
            assert_eq!(u.live_neighbor_count(row, col), 8);
        }
    }
}

#[test]
fn neighbor_count_wraps_around_edges() {
    // One live cell in a corner; its diagonal wrap neighbor sees it.
    let mut u = dead_grid(4, 4);
    u.set_cells(&[(0, 0)]);
    assert_eq!(u.live_neighbor_count(3, 3), 1);
    assert_eq!(u.live_neighbor_count(0, 1), 1);
    assert_eq!(u.live_neighbor_count(3, 0), 1);
    // The live cell itself is not its own neighbor.
    assert_eq!(u.live_neighbor_count(0, 0), 0);
}

#[test]
fn lone_cell_dies_of_underpopulation() {
    let mut u = dead_grid(5, 5);
    u.set_cells(&[(2, 2)]);
    u.tick();
    for &cell in u.get_cells() {
        assert_eq!(cell, Cell::Dead);
    }
}

#[test]
fn cell_with_one_neighbor_dies() {
    let mut u = dead_grid(6, 6);
    u.set_cells(&[(2, 2), (2, 3)]);
    u.tick();
    let cells = u.get_cells();
    assert_eq!(cells[u.get_index(2, 2)], Cell::Dead);
    assert_eq!(cells[u.get_index(2, 3)], Cell::Dead);
}

#[test]
fn cell_with_two_neighbors_survives() {
    // Vertical blinker: the center has two live neighbors.
    let mut u = dead_grid(5, 5);
    u.set_cells(&[(1, 2), (2, 2), (3, 2)]);
    u.tick();
    assert_eq!(u.get_cells()[u.get_index(2, 2)], Cell::Alive);
}

#[test]
fn cell_with_three_neighbors_survives() {
    // A 2x2 block is a still life: every live cell has 3 live neighbors.
    let mut u = dead_grid(5, 5);
    u.set_cells(&[(1, 1), (1, 2), (2, 1), (2, 2)]);
    u.tick();
    let cells = u.get_cells();
    assert_eq!(cells[u.get_index(1, 1)], Cell::Alive);
    assert_eq!(cells[u.get_index(1, 2)], Cell::Alive);
    assert_eq!(cells[u.get_index(2, 1)], Cell::Alive);
    assert_eq!(cells[u.get_index(2, 2)], Cell::Alive);
}

#[test]
fn dead_cell_with_three_neighbors_is_born() {
    let mut u = dead_grid(5, 5);
    u.set_cells(&[(1, 2), (2, 2), (3, 2)]);
    assert_eq!(u.get_cells()[u.get_index(2, 1)], Cell::Dead);
    u.tick();
    assert_eq!(u.get_cells()[u.get_index(2, 1)], Cell::Alive);
    assert_eq!(u.get_cells()[u.get_index(2, 3)], Cell::Alive);
}

#[test]
fn dead_cell_with_four_neighbors_stays_dead() {
    let mut u = dead_grid(7, 7);
    u.set_cells(&[(2, 2), (2, 4), (4, 2), (4, 4)]);
    u.tick();
    assert_eq!(u.get_cells()[u.get_index(3, 3)], Cell::Dead);
}

#[test]
fn blinker_oscillates_with_period_two() {
    let mut u = dead_grid(5, 5);
    u.set_cells(&[(1, 2), (2, 2), (3, 2)]);
    let start: Vec<Cell> = u.get_cells().to_vec();
    u.tick();
    let mid: Vec<Cell> = u.get_cells().to_vec();
    assert_ne!(start, mid);
    assert_eq!(mid[u.get_index(2, 1)], Cell::Alive);
    assert_eq!(mid[u.get_index(2, 2)], Cell::Alive);
    assert_eq!(mid[u.get_index(2, 3)], Cell::Alive);
    u.tick();
    assert_eq!(u.get_cells(), &start[..]);
}

#[test]
fn set_width_resets_every_cell_to_dead() {
    let mut u = Universe::new();
    u.set_width(10);
    assert_eq!(u.width(), 10);
    assert_eq!(u.height(), 64);
    assert_eq!(u.len(), 640);
    for &cell in u.get_cells() {
        assert_eq!(cell, Cell::Dead);
    }
}

#[test]
fn set_height_resets_every_cell_to_dead() {
    let mut u = Universe::new();
    u.set_height(3);
    assert_eq!(u.width(), 64);
    assert_eq!(u.height(), 3);
    assert_eq!(u.len(), 192);
    for &cell in u.get_cells() {
        assert_eq!(cell, Cell::Dead);
    }
}

#[test]
fn set_cells_paints_exactly_the_named_cells() {
    let mut u = dead_grid(4, 4);
    u.set_cells(&[(1, 2), (3, 0)]);
    let cells = u.get_cells();
    for row in 0..4u32 {
        for col in 0..4u32 {
            let expected = if (row, col) == (1, 2) || (row, col) == (3, 0) {
                Cell::Alive
            } else {
                Cell::Dead
            };
            assert_eq!(cells[u.get_index(row, col)], expected);
        }
    }
}

#[test]
fn set_cells_leaves_other_cells_at_their_prior_state() {
    let mut u = alive_grid(3, 3);
    u.set_cells(&[(0, 0)]);
    for &cell in u.get_cells() {
        assert_eq!(cell, Cell::Alive);
    }
}

#[test]
fn cells_view_matches_get_cells() {
    let mut u = dead_grid(2, 2);
    u.set_cells(&[(0, 1)]);
    assert_eq!(u.cells(), u.get_cells());
    assert_eq!(u.cells()[1], Cell::Alive);
}

#[test]
fn render_draws_rows_of_glyphs() {
    let mut u = dead_grid(3, 2);
    u.set_cells(&[(0, 0), (1, 2)]);
    assert_eq!(u.render(), "\u{25fc}\u{25fb}\u{25fb}\n\u{25fb}\u{25fb}\u{25fc}\n");
}

#[test]
fn render_of_dead_grid_is_all_dead_glyphs() {
    let u = dead_grid(2, 1);
    assert_eq!(u.render(), "\u{25fb}\u{25fb}\n");
}

#[test]
fn one_by_one_grid_wraps_onto_itself() {
    // On a 1x1 grid the wrapped offsets collapse: of the eight neighbor
    // terms, the ones whose offsets are both zero are excluded, leaving
    // five self-counts.
    let u = alive_grid(1, 1);
    assert_eq!(u.live_neighbor_count(0, 0), 5);
    let d = dead_grid(1, 1);
    assert_eq!(d.live_neighbor_count(0, 0), 0);
}

#[test]
fn single_column_grid_self_counts_through_wrap() {
    // Width 1: the west and east offsets both wrap onto the cell's own
    // column, so the rows above and below are double-counted and the cell
    // counts itself once through its own row's wrapped offset.
    let mut u = dead_grid(1, 3);
    u.set_cells(&[(1, 0)]);
    assert_eq!(u.live_neighbor_count(0, 0), 3);
    assert_eq!(u.live_neighbor_count(2, 0), 3);
    assert_eq!(u.live_neighbor_count(1, 0), 1);
}
