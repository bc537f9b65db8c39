use game_of_life::board::Board;
use game_of_life::cell::CellState;

fn alive_cells(b: &Board) -> Vec<(usize, usize)> {
    let mut v = Vec::new();
    for r in 0..b.height + 2 {
        for c in 0..b.width + 2 {
            if b.state_at(r, c) == CellState::Alive {
                v.push((r, c));
            }
        }
    }
    v
}

fn board_with(w: usize, h: usize, cells: &[(usize, usize)]) -> Board {
    let mut b = Board::new(w, h);
    for &(r, c) in cells {
        b.set_alive(r, c, true);
    }
    b
}

#[test]
fn block_is_a_still_life() {
    let block = [(2, 2), (2, 3), (3, 2), (3, 3)];
    let mut b = board_with(4, 4, &block);
    b.step();
    assert_eq!(alive_cells(&b), block.to_vec());
    b.step();
    assert_eq!(alive_cells(&b), block.to_vec());
}

#[test]
fn blinker_oscillates() {
    let horizontal = [(3, 2), (3, 3), (3, 4)];
    let vertical = [(2, 3), (3, 3), (4, 3)];
    let mut b = board_with(5, 5, &horizontal);
    b.step();
    assert_eq!(alive_cells(&b), vertical.to_vec());
    b.step();
    assert_eq!(alive_cells(&b), horizontal.to_vec());
}

#[test]
fn isolated_cell_dies() {
    let mut b = board_with(3, 3, &[(2, 2)]);
    b.step();
    assert!(alive_cells(&b).is_empty());
    assert_eq!(b.state_at(2, 2), CellState::Dead);
}

#[test]
fn dead_cell_with_three_neighbours_is_born() {
    let mut b = board_with(3, 3, &[(1, 1), (1, 3), (3, 2)]);
    assert_eq!(b.neighbour_check(2, 2), 3);
    b.step();
    assert_eq!(b.state_at(2, 2), CellState::Alive);
}

#[test]
fn dead_cell_with_two_neighbours_stays_dead() {
    let mut b = board_with(3, 3, &[(1, 1), (3, 3)]);
    assert_eq!(b.neighbour_check(2, 2), 2);
    b.step();
    assert_eq!(b.state_at(2, 2), CellState::Dead);
}

#[test]
fn dead_cell_with_four_neighbours_stays_dead() {
    let mut b = board_with(3, 3, &[(1, 1), (1, 3), (3, 1), (3, 3)]);
    assert_eq!(b.neighbour_check(2, 2), 4);
    b.step();
    assert_eq!(b.state_at(2, 2), CellState::Dead);
}

#[test]
fn live_cell_survival_rule() {
    // survives with two
    let mut b = board_with(3, 3, &[(2, 2), (1, 1), (3, 3)]);
    b.step();
    assert_eq!(b.state_at(2, 2), CellState::Alive);
    // dies of overcrowding with four
    let mut b = board_with(3, 3, &[(2, 2), (1, 1), (1, 3), (3, 1), (3, 3)]);
    b.step();
    assert_eq!(b.state_at(2, 2), CellState::Dead);
    // dies of loneliness with one
    let mut b = board_with(3, 3, &[(2, 2), (1, 1)]);
    b.step();
    assert_eq!(b.state_at(2, 2), CellState::Dead);
}

#[test]
fn glider_travels_without_order_artifacts() {
    let mut b = board_with(6, 6, &[(1, 2), (2, 3), (3, 1), (3, 2), (3, 3)]);
    for _ in 0..4 {
        b.step();
    }
    assert_eq!(alive_cells(&b), vec![(2, 3), (3, 4), (4, 2), (4, 3), (4, 4)]);
}

#[test]
fn border_never_changes_over_generations() {
    let mut b = Board::new(8, 6);
    b.randomize_rows(99);
    for _ in 0..20 {
        b.step();
        for r in 0..8 {
            for c in 0..10 {
                let ring = r == 0 || r == 7 || c == 0 || c == 9;
                assert_eq!(b.state_at(r, c) == CellState::Border, ring);
            }
        }
        for r in 1..=6 {
            for c in 1..=8 {
                assert!(b.neighbour_check(r, c) <= 8);
            }
        }
    }
}

#[test]
fn advance_runs_many_generations() {
    let horizontal = [(3, 2), (3, 3), (3, 4)];
    let mut b = board_with(5, 5, &horizontal);
    b.advance(10);
    assert_eq!(alive_cells(&b), horizontal.to_vec());
    b.advance(3);
    assert_eq!(alive_cells(&b), vec![(2, 3), (3, 3), (4, 3)]);
    b.advance(0);
    assert_eq!(alive_cells(&b), vec![(2, 3), (3, 3), (4, 3)]);
}

#[test]
fn advance_keeps_the_border() {
    let mut b = Board::new(6, 4);
    b.randomize_rows(17);
    b.advance(25);
    for r in 0..6 {
        for c in 0..8 {
            let ring = r == 0 || r == 5 || c == 0 || c == 7;
            assert_eq!(b.state_at(r, c) == CellState::Border, ring);
        }
    }
}
