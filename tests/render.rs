use game_of_life::board::Board;
use game_of_life::cell::{BLANK, BLOCK, BORDER};

#[test]
fn render_exact_text() {
    let mut b = Board::new(3, 2);
    b.set_alive(1, 2, true);
    b.set_alive(2, 3, true);
    assert_eq!(b.render(), "▒▒▒▒▒\n▒ █ ▒\n▒  █▒\n▒▒▒▒▒\n");
}

#[test]
fn render_shape_and_glyphs() {
    let mut b = Board::new(7, 4);
    b.randomize_rows(5);
    let text = b.render();
    let lines: Vec<&str> = text.lines().collect();
    assert_eq!(lines.len(), 6);
    for line in &lines {
        assert_eq!(line.chars().count(), 9);
        assert!(line.chars().all(|ch| ch == BLOCK || ch == BORDER || ch == BLANK));
    }
    assert!(text.ends_with('\n'));
}

#[test]
fn render_does_not_change_the_board() {
    let mut b = Board::new(4, 4);
    b.randomize_rows(3);
    let before: Vec<_> = b.spaces.iter().flatten().map(|c| (c.state, c.will_live)).collect();
    let _ = b.render();
    let after: Vec<_> = b.spaces.iter().flatten().map(|c| (c.state, c.will_live)).collect();
    assert_eq!(before, after);
}
