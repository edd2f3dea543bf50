use gear_puzzle::puzzle::{Layer, Puzzle, Rotation, L0, L0_0, L4_0, L4_1, L4_2, L4_3, MAX_VALUE};

const NEUTRAL: Rotation = (0, 0, 0, 0);

#[test]
fn ring_gets_value() {
    let ring = Layer::new(0, [&L0_0, &L0, &L0, &L0]);
    let res = ring.get_cell(0, 0, &NEUTRAL);
    assert_eq!(res, 8);
}

#[test]
fn ring_gets_rotated_value() {
    let ring = Layer::new(0, [&L0_0, &L0, &L0, &L0]);
    let rotation = (2, 0, 0, 0);
    let res = ring.get_cell(0, 0, &rotation);
    assert_eq!(res, 3);
}

#[test]
fn layer_reads_only_its_own_component() {
    let ring = Layer::new(2, [&L0_0, &L0, &L0, &L0]);
    assert_eq!(ring.get_cell(0, 0, &(5, 7, 0, 9)), 8);
    assert_eq!(ring.get_cell(0, 0, &(0, 0, 4, 0)), 6);
    assert_eq!(ring.get_cell(0, 1, &(0, 0, 4, 0)), 0);
}

#[test]
fn base_layer_never_turns() {
    let base = Layer::new(4, [&L4_0, &L4_1, &L4_2, &L4_3]);
    assert_eq!(base.get_cell(0, 1, &(3, 4, 5, 6)), 15);
    assert_eq!(base.get_cell(11, 3, &(11, 11, 11, 11)), 7);
}

#[test]
fn rotation_wraps_around_the_ring() {
    let ring = Layer::new(0, [&L0_0, &L0, &L0, &L0]);
    assert_eq!(ring.get_cell(10, 0, &(2, 0, 0, 0)), 8);
    assert_eq!(ring.get_cell(11, 0, &(11, 0, 0, 0)), 15);
}

#[test]
fn rotation_is_a_cyclic_shift() {
    let ring = Layer::new(1, [&L0_0, &L4_1, &L4_2, &L4_3]);
    for k in 0..12 {
        for column in 0..12 {
            for row in 0..4 {
                let turned = ring.get_cell(column, row, &(0, k, 0, 0));
                let shifted = ring.get_cell((column + k) % 12, row, &NEUTRAL);
                assert_eq!(turned, shifted);
            }
        }
    }
}

#[test]
fn puzzle_takes_the_topmost_cell() {
    let puzzle = Puzzle::new();
    assert_eq!(puzzle.get_cell(0, 0, &NEUTRAL), 8);
    assert_eq!(puzzle.cell(0, 0, &NEUTRAL), (0, 8));
    assert_eq!(puzzle.get_cell(0, 0, &(2, 0, 0, 0)), 3);
    assert_eq!(puzzle.cell(1, 0, &NEUTRAL), (1, 17));
    assert_eq!(puzzle.cell(0, 1, &NEUTRAL), (1, 12));
    assert_eq!(puzzle.cell(1, 1, &NEUTRAL), (4, 4));
    assert_eq!(puzzle.cell(0, 2, &NEUTRAL), (2, 9));
    assert_eq!(puzzle.cell(1, 2, &NEUTRAL), (3, 13));
    assert_eq!(puzzle.cell(0, 3, &NEUTRAL), (3, 12));
    assert_eq!(puzzle.cell(1, 3, &NEUTRAL), (4, 8));
}

#[test]
fn every_cell_is_shown_for_every_rotation() {
    let puzzle = Puzzle::new();
    for a in 0..12 {
        for b in 0..12 {
            for c in 0..12 {
                for d in 0..12 {
                    let rotation = (a, b, c, d);
                    for row in 0..4 {
                        let (layer, value) = puzzle.cell(a, row, &rotation);
                        assert!(layer < 5);
                        assert!(value != 0 && value <= MAX_VALUE);
                    }
                }
            }
        }
    }
    for column in 0..12 {
        for row in 0..4 {
            assert_ne!(puzzle.get_cell(column, row, &(7, 8, 3, 3)), 0);
        }
    }
}

#[test]
fn column_sums() {
    let puzzle = Puzzle::new();
    // 8 + 12 + 9 + 12
    assert!(!puzzle.is_42(0, &NEUTRAL));
    // 11 + 14 + 9 + 8
    assert!(puzzle.is_42(0, &(7, 8, 3, 3)));
    assert!(puzzle.is_42(11, &(7, 8, 3, 3)));
}

#[test]
fn solution_is_recognised() {
    let puzzle = Puzzle::new();
    assert!(puzzle.is_solution((7, 8, 3, 3)));
    assert!(!puzzle.is_solution(NEUTRAL));
    assert!(!puzzle.is_solution((7, 8, 3, 4)));
    assert!(!puzzle.is_solution((11, 11, 11, 11)));
}

#[test]
fn is_solution_answers_the_same_twice() {
    let puzzle = Puzzle::new();
    for rotation in [(7, 8, 3, 3), (0, 0, 0, 0), (3, 3, 8, 7)] {
        let first = puzzle.is_solution(rotation);
        let second = puzzle.is_solution(rotation);
        assert_eq!(first, second);
    }
    assert_eq!(puzzle.cells(&(7, 8, 3, 3)), Puzzle::new().cells(&(7, 8, 3, 3)));
}

#[test]
fn grid_of_the_solution() {
    let puzzle = Puzzle::new();
    let grid = puzzle.cells(&(7, 8, 3, 3));
    assert_eq!(grid.len(), 4);
    assert_eq!(
        grid[0],
        vec![
            (1, 11), (0, 7), (1, 11), (0, 15), (1, 6), (0, 8),
            (1, 7), (0, 3), (4, 14), (0, 6), (2, 8), (0, 10)
        ]
    );
    assert_eq!(
        grid[1],
        vec![
            (1, 14), (2, 15), (1, 9), (2, 9), (1, 12), (2, 11),
            (1, 4), (2, 14), (1, 7), (1, 15), (4, 13), (2, 21)
        ]
    );
    assert_eq!(
        grid[2],
        vec![
            (4, 9), (2, 10), (3, 19), (2, 8), (3, 12), (2, 22),
            (3, 26), (2, 16), (4, 14), (2, 9), (3, 13), (2, 5)
        ]
    );
    assert_eq!(
        grid[3],
        vec![
            (4, 8), (3, 10), (4, 3), (3, 10), (4, 12), (3, 1),
            (4, 5), (3, 9), (4, 7), (3, 12), (4, 8), (3, 6)
        ]
    );
    for column in 0..12 {
        let sum: usize = (0..4).map(|row| grid[row][column].1).sum();
        assert_eq!(sum, 42);
    }
}
