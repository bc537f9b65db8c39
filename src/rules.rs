use vstd::prelude::*;
use crate::cell::CellState;

verus! {

/// A grid of cell states, row by row.
pub type Grid = Seq<Seq<CellState>>;

/// Whether `(r, c)` lies on the sentinel ring of a board with `h` interior
/// rows and `w` interior columns.
pub open spec fn on_ring(r: int, c: int, h: int, w: int) -> bool {
    r == 0 || r == h + 1 || c == 0 || c == w + 1
}

/// Whether `(r, c)` is an interior (playable) position.
pub open spec fn interior(r: int, c: int, h: int, w: int) -> bool {
    1 <= r <= h && 1 <= c <= w
}

/// `g` has `h + 2` rows of `w + 2` cells, and a cell is `Border` exactly
/// when it lies on the ring around the interior.
pub open spec fn grid_wf(g: Grid, h: int, w: int) -> bool {
    &&& h >= 0
    &&& w >= 0
    &&& g.len() == h + 2
    &&& forall|r: int| 0 <= r < g.len() ==> #[trigger] g[r].len() == w + 2
    &&& forall|r: int, c: int|
        0 <= r < h + 2 && 0 <= c < w + 2 ==> ((#[trigger] g[r][c] == CellState::Border) <==> on_ring(
            r,
            c,
            h,
            w,
        ))
}

/// 1 when the cell at `(r, c)` is alive, else 0.
pub open spec fn alive_at(g: Grid, r: int, c: int) -> int {
    if g[r][c] == CellState::Alive {
        1
    } else {
        0
    }
}

/// The number of live cells among the eight neighbours of `(r, c)`.
pub open spec fn live_neighbors(g: Grid, r: int, c: int) -> int {
    alive_at(g, r - 1, c - 1) + alive_at(g, r - 1, c) + alive_at(g, r - 1, c + 1) + alive_at(
        g,
        r,
        c - 1,
    ) + alive_at(g, r, c + 1) + alive_at(g, r + 1, c - 1) + alive_at(g, r + 1, c) + alive_at(
        g,
        r + 1,
        c + 1,
    )
}

/// The rule of the game for a non-border cell with `n` live neighbours: a live
/// cell survives with two or three, a dead cell is born with exactly three.
pub open spec fn next_state(s: CellState, n: int) -> CellState {
    match s {
        CellState::Border => CellState::Border,
        CellState::Alive => if n == 2 || n == 3 {
            CellState::Alive
        } else {
            CellState::Dead
        },
        CellState::Dead => if n == 3 {
            CellState::Alive
        } else {
            CellState::Dead
        },
    }
}

/// The state of `(r, c)` in the generation after `g`.
pub open spec fn next_cell(g: Grid, r: int, c: int) -> CellState {
    if g[r][c] == CellState::Border {
        CellState::Border
    } else {
        next_state(g[r][c], live_neighbors(g, r, c))
    }
}

/// The generation after `g`: every cell decided from `g` alone.
pub open spec fn next_grid(g: Grid) -> Grid {
    Seq::new(g.len(), |r: int| Seq::new(g[r].len(), |c: int| next_cell(g, r, c)))
}

/// The grid `n` generations after `g`.
pub open spec fn generation(g: Grid, n: nat) -> Grid
    decreases n,
{
    if n == 0 {
        g
    } else {
        next_grid(generation(g, (n - 1) as nat))
    }
}

} // verus!
