use game_of_life::board::{pad, Board};
use game_of_life::cell::{Cell, CellState, BLANK, BLOCK, BORDER};

#[test]
fn cell_new_caches_glyph() {
    let a = Cell::new(CellState::Alive);
    assert_eq!(a.symbol, BLOCK);
    assert!(!a.will_live);
    assert_eq!(Cell::new(CellState::Border).symbol, BORDER);
    assert_eq!(Cell::new(CellState::Dead).symbol, BLANK);
}

#[test]
fn cell_set_state_refreshes_glyph_and_keeps_verdict() {
    let mut c = Cell::new(CellState::Dead);
    c.will_live = true;
    c.set_state(CellState::Alive);
    assert_eq!(c.state, CellState::Alive);
    assert_eq!(c.symbol, BLOCK);
    assert!(c.will_live);
    c.set_state(CellState::Dead);
    assert_eq!(c.symbol, BLANK);
}

#[test]
fn pad_adds_border_at_both_ends() {
    let v = vec![Cell::new(CellState::Dead), Cell::new(CellState::Alive)];
    let p = pad(v);
    assert_eq!(p.len(), 4);
    assert_eq!(p[0].state, CellState::Border);
    assert_eq!(p[1].state, CellState::Dead);
    assert_eq!(p[2].state, CellState::Alive);
    assert_eq!(p[3].state, CellState::Border);
}

#[test]
fn pad_of_empty_row() {
    let p = pad(Vec::new());
    assert_eq!(p.len(), 2);
    assert!(p.iter().all(|c| c.state == CellState::Border));
}

#[test]
fn new_board_layout() {
    let b = Board::new(4, 3);
    assert_eq!(b.width, 4);
    assert_eq!(b.height, 3);
    assert_eq!(b.spaces.len(), 5);
    for r in 0..5 {
        assert_eq!(b.spaces[r].len(), 6);
        for c in 0..6 {
            let ring = r == 0 || r == 4 || c == 0 || c == 5;
            let expected = if ring { CellState::Border } else { CellState::Dead };
            assert_eq!(b.state_at(r, c), expected);
            assert!(!b.spaces[r][c].will_live);
        }
    }
}

#[test]
fn zero_sized_board_is_all_border_and_never_changes() {
    let mut b = Board::new(0, 0);
    assert_eq!(b.spaces.len(), 2);
    assert!(b.spaces.iter().all(|row| row.len() == 2));
    for _ in 0..3 {
        b.step();
    }
    assert!(b.spaces.iter().flatten().all(|c| c.state == CellState::Border));
    let mut flat = Board::new(5, 0);
    flat.step();
    assert_eq!(flat.spaces.len(), 2);
    assert_eq!(flat.render(), "▒▒▒▒▒▒▒\n▒▒▒▒▒▒▒\n");
}

#[test]
fn set_alive_and_state_at() {
    let mut b = Board::new(3, 3);
    b.set_alive(2, 3, true);
    assert_eq!(b.state_at(2, 3), CellState::Alive);
    assert_eq!(b.spaces[2][3].symbol, BLOCK);
    b.set_alive(2, 3, false);
    assert_eq!(b.state_at(2, 3), CellState::Dead);
}

#[test]
fn neighbour_check_counts_the_eight_neighbours() {
    let mut b = Board::new(3, 3);
    assert_eq!(b.neighbour_check(2, 2), 0);
    for r in 1..=3 {
        for c in 1..=3 {
            b.set_alive(r, c, true);
        }
    }
    assert_eq!(b.neighbour_check(2, 2), 8);
    assert_eq!(b.neighbour_check(1, 1), 3);
    assert_eq!(b.neighbour_check(1, 2), 5);
}

#[test]
fn update_will_decides_without_changing_states() {
    let mut b = Board::new(5, 5);
    b.set_alive(3, 2, true);
    b.set_alive(3, 3, true);
    b.set_alive(3, 4, true);
    b.update_will();
    assert_eq!(b.state_at(3, 2), CellState::Alive);
    assert_eq!(b.state_at(2, 3), CellState::Dead);
    assert!(b.spaces[3][3].will_live);
    assert!(!b.spaces[3][2].will_live);
    assert!(!b.spaces[3][4].will_live);
    assert!(b.spaces[2][3].will_live);
    assert!(b.spaces[4][3].will_live);
    assert!(!b.spaces[1][1].will_live);
}

#[test]
fn change_based_on_will_commits_and_resets() {
    let mut b = Board::new(2, 2);
    b.set_alive(1, 1, true);
    b.spaces[1][2].will_live = true;
    b.change_based_on_will();
    assert_eq!(b.state_at(1, 1), CellState::Dead);
    assert_eq!(b.state_at(1, 2), CellState::Alive);
    assert_eq!(b.spaces[1][2].symbol, BLOCK);
    assert_eq!(b.spaces[1][1].symbol, BLANK);
    assert!(b.spaces.iter().flatten().all(|c| !c.will_live));
    assert_eq!(b.state_at(0, 0), CellState::Border);
}
