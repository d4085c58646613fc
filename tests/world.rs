use conway::rules::next_state;
use conway::world::{World, WorldError};

fn grid(cols: usize, rows: usize, live: &[(usize, usize)]) -> World {
    let mut cells = vec![false; cols * rows];
    for &(row, col) in live {
        cells[row * cols + col] = true;
    }
    World::from_cells(cols, rows, cells).unwrap()
}

fn live_cells(w: &World) -> Vec<(usize, usize)> {
    let mut out = Vec::new();
    for (i, &alive) in w.cells().iter().enumerate() {
        if alive {
            out.push((i / w.cols(), i % w.cols()));
        }
    }
    out
}

#[test]
fn three_by_three_with_dead_centre() {
    // On a 3x3 torus the eight neighbours of any cell are all the other cells:
    // the dead centre sees eight live ones, every other cell sees the centre.
    let mut cells = vec![true; 9];
    cells[4] = false;
    let w = World::from_cells(3, 3, cells).unwrap();
    assert_eq!(w.living_neighbours(4), 8);
    for i in [0, 1, 2, 3, 5, 6, 7, 8] {
        assert_eq!(w.living_neighbours(i), 7);
    }
}

#[test]
fn neighbours_wrap_round_both_edges() {
    // A live cell in the bottom-right corner neighbours the top-left one.
    let w = grid(5, 4, &[(3, 4)]);
    assert_eq!(w.living_neighbours(0), 1);
    assert_eq!(w.living_neighbours(3 * 5), 1);
    assert_eq!(w.living_neighbours(4), 1);
    assert_eq!(w.living_neighbours(2 * 5 + 2), 0);
}

#[test]
fn neighbour_count_is_at_most_eight() {
    let w = World::new(7, 5).unwrap();
    for i in 0..35 {
        assert!(w.living_neighbours(i) <= 8);
    }
    let full = World::from_cells(4, 4, vec![true; 16]).unwrap();
    for i in 0..16 {
        assert_eq!(full.living_neighbours(i), 8);
    }
}

#[test]
fn one_by_one_grid_is_its_own_neighbour() {
    let w = World::from_cells(1, 1, vec![true]).unwrap();
    assert_eq!(w.living_neighbours(0), 8);
}

#[test]
fn rule_for_every_count() {
    for n in 0u8..=8 {
        assert_eq!(next_state(true, n), n == 2 || n == 3);
        assert_eq!(next_state(false, n), n == 3);
    }
}

#[test]
fn dead_cell_with_three_neighbours_is_born() {
    let mut w = grid(5, 5, &[(1, 1), (1, 2), (1, 3)]);
    assert!(!w.cell_state(2 * 5 + 2));
    assert_eq!(w.living_neighbours(2 * 5 + 2), 3);
    w.next_iteration();
    assert!(w.cell_state(2 * 5 + 2));
}

#[test]
fn dead_cell_with_two_or_four_neighbours_stays_dead() {
    let mut two = grid(6, 6, &[(1, 1), (1, 3)]);
    assert_eq!(two.living_neighbours(2 * 6 + 2), 2);
    two.next_iteration();
    assert!(!two.cell_state(2 * 6 + 2));

    let mut four = grid(6, 6, &[(1, 1), (1, 3), (3, 1), (3, 3)]);
    assert_eq!(four.living_neighbours(2 * 6 + 2), 4);
    four.next_iteration();
    assert!(!four.cell_state(2 * 6 + 2));
}

#[test]
fn live_cell_survives_with_two_or_three_neighbours() {
    let mut two = grid(6, 6, &[(2, 2), (1, 1), (3, 3)]);
    assert_eq!(two.living_neighbours(2 * 6 + 2), 2);
    two.next_iteration();
    assert!(two.cell_state(2 * 6 + 2));

    let mut three = grid(6, 6, &[(2, 2), (1, 1), (3, 3), (1, 3)]);
    assert_eq!(three.living_neighbours(2 * 6 + 2), 3);
    three.next_iteration();
    assert!(three.cell_state(2 * 6 + 2));
}

#[test]
fn live_cell_dies_with_too_few_or_too_many_neighbours() {
    let cases: Vec<Vec<(usize, usize)>> = vec![
        vec![],
        vec![(1, 1)],
        vec![(1, 1), (1, 3), (3, 1), (3, 3)],
        vec![(1, 1), (1, 2), (1, 3), (3, 1), (3, 3)],
        vec![(1, 1), (1, 2), (1, 3), (2, 1), (2, 3), (3, 1), (3, 2), (3, 3)],
    ];
    let expected = [0u8, 1, 4, 5, 8];
    for (live, &n) in cases.iter().zip(expected.iter()) {
        let mut all = live.clone();
        all.push((2, 2));
        let mut w = grid(6, 6, &all);
        assert_eq!(w.living_neighbours(2 * 6 + 2), n);
        w.next_iteration();
        assert!(!w.cell_state(2 * 6 + 2));
    }
}

#[test]
fn block_is_stable() {
    let block = [(2, 2), (2, 3), (3, 2), (3, 3)];
    let mut w = grid(6, 6, &block);
    w.next_iteration();
    assert_eq!(live_cells(&w), block.to_vec());
    w.next_iteration();
    assert_eq!(live_cells(&w), block.to_vec());
}

#[test]
fn blinker_oscillates() {
    let horizontal = vec![(2, 1), (2, 2), (2, 3)];
    let vertical = vec![(1, 2), (2, 2), (3, 2)];
    let mut w = grid(5, 5, &horizontal);
    w.next_iteration();
    assert_eq!(live_cells(&w), vertical);
    w.next_iteration();
    assert_eq!(live_cells(&w), horizontal);
}

#[test]
fn same_generation_gives_same_successor() {
    let first = World::new(8, 6).unwrap();
    let mut a = World::from_cells(8, 6, first.cells().to_vec()).unwrap();
    let mut b = World::from_cells(8, 6, first.cells().to_vec()).unwrap();
    for _ in 0..3 {
        a.next_iteration();
        b.next_iteration();
        assert_eq!(a.cells(), b.cells());
    }
}

#[test]
fn counts_are_taken_before_any_cell_changes() {
    // Updating cells one by one would let the first row's births feed the
    // counts of later rows; the whole glider must move as one.
    let mut w = grid(6, 6, &[(0, 1), (1, 2), (2, 0), (2, 1), (2, 2)]);
    w.next_iteration();
    assert_eq!(live_cells(&w), vec![(1, 0), (1, 2), (2, 1), (2, 2), (3, 1)]);
}

#[test]
fn zero_width_is_rejected() {
    assert_eq!(World::new(0, 5).err(), Some(WorldError::ZeroDimension));
    assert_eq!(World::from_cells(0, 5, vec![]).err(), Some(WorldError::ZeroDimension));
}

#[test]
fn zero_height_is_rejected() {
    assert_eq!(World::new(5, 0).err(), Some(WorldError::ZeroDimension));
    assert_eq!(World::new(0, 0).err(), Some(WorldError::ZeroDimension));
    assert_eq!(World::from_cells(5, 0, vec![]).err(), Some(WorldError::ZeroDimension));
}

#[test]
fn wrong_number_of_cells_is_rejected() {
    assert_eq!(
        World::from_cells(3, 2, vec![true; 5]).err(),
        Some(WorldError::CellCountMismatch)
    );
    assert_eq!(
        World::from_cells(usize::MAX, 2, vec![true; 2]).err(),
        Some(WorldError::CellCountMismatch)
    );
}

#[test]
fn new_allocates_width_times_height_cells() {
    let w = World::new(4, 3).unwrap();
    assert_eq!(w.cols(), 4);
    assert_eq!(w.rows(), 3);
    assert_eq!(w.cells().len(), 12);
    assert_eq!(w.cell_chars().len(), 12);
}

#[test]
fn cell_chars_show_live_and_dead_cells() {
    let w = World::from_cells(3, 1, vec![true, false, true]).unwrap();
    assert_eq!(w.cell_chars(), vec!['X', ' ', 'X']);
    assert!(w.cell_state(0));
    assert!(!w.cell_state(1));
}
