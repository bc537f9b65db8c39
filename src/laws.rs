use vstd::prelude::*;
use crate::board::fresh_grid;
use crate::cell::CellState;
use crate::rules::{generation, grid_wf, interior, live_neighbors, next_grid, on_ring, Grid};
use crate::seeding::{randomized, seeded_bytes};

verus! {

/// One generation keeps the shape of a well-formed grid and keeps the
/// border exactly where it was.
pub proof fn lemma_next_grid_wf(g: Grid, h: int, w: int)
    requires
        grid_wf(g, h, w),
    ensures
        grid_wf(next_grid(g), h, w),
{
    let n = next_grid(g);
    assert forall|r: int, c: int| 0 <= r < h + 2 && 0 <= c < w + 2 implies ((#[trigger] n[r][c]
        == CellState::Border) <==> on_ring(r, c, h, w)) by {
        assert(g[r].len() == w + 2);
        assert(g[r][c] == CellState::Border <==> on_ring(r, c, h, w));
    }
}

/// Border cells never become alive or dead, and no other cell ever becomes
/// a border cell, whatever the number of generations.
pub proof fn lemma_border_fixed(g: Grid, h: int, w: int, n: nat)
    requires
        grid_wf(g, h, w),
    ensures
        grid_wf(generation(g, n), h, w),
        forall|r: int, c: int|
            0 <= r < h + 2 && 0 <= c < w + 2 ==> ((#[trigger] generation(g, n)[r][c]
                == CellState::Border) <==> g[r][c] == CellState::Border),
    decreases n,
{
    if n > 0 {
        lemma_border_fixed(g, h, w, (n - 1) as nat);
        lemma_next_grid_wf(generation(g, (n - 1) as nat), h, w);
    }
    let gn = generation(g, n);
    assert forall|r: int, c: int| 0 <= r < h + 2 && 0 <= c < w + 2 implies ((#[trigger] gn[r][c]
        == CellState::Border) <==> g[r][c] == CellState::Border) by {
        assert(gn[r][c] == CellState::Border <==> on_ring(r, c, h, w));
        assert(g[r][c] == CellState::Border <==> on_ring(r, c, h, w));
    }
}

/// For every playable cell of every generation the live-neighbour count
/// lies in `0..=8`, and the next state follows the rule exactly: a live
/// cell survives with two or three live neighbours, a dead cell is born
/// with exactly three, and every other cell is dead in the next generation.
pub proof fn lemma_transition_rule(g: Grid, h: int, w: int, n: nat, r: int, c: int)
    requires
        grid_wf(g, h, w),
        interior(r, c, h, w),
    ensures
        ({
            let cur = generation(g, n);
            let nb = live_neighbors(cur, r, c);
            let next = generation(g, n + 1)[r][c];
            &&& 0 <= nb <= 8
            &&& cur[r][c] != CellState::Border
            &&& cur[r][c] == CellState::Alive ==> (next == CellState::Alive <==> (nb == 2 || nb
                == 3))
            &&& cur[r][c] == CellState::Dead ==> (next == CellState::Alive <==> nb == 3)
            &&& next == CellState::Alive || next == CellState::Dead
        }),
{
    lemma_border_fixed(g, h, w, n);
    let cur = generation(g, n);
    assert(cur[r].len() == w + 2);
    assert(!on_ring(r, c, h, w));
    assert(generation(g, n + 1) == next_grid(cur));
}

/// A dead playable cell with exactly three live neighbours is alive after
/// one generation; with two or four it stays dead.
pub proof fn lemma_birth(g: Grid, h: int, w: int, r: int, c: int)
    requires
        grid_wf(g, h, w),
        interior(r, c, h, w),
        g[r][c] == CellState::Dead,
    ensures
        live_neighbors(g, r, c) == 3 ==> next_grid(g)[r][c] == CellState::Alive,
        live_neighbors(g, r, c) == 2 || live_neighbors(g, r, c) == 4 ==> next_grid(g)[r][c]
            == CellState::Dead,
{
    assert(g[r].len() == w + 2);
}

/// A live playable cell with no live neighbour is dead after one
/// generation.
pub proof fn lemma_isolated_dies(g: Grid, h: int, w: int, r: int, c: int)
    requires
        grid_wf(g, h, w),
        interior(r, c, h, w),
        g[r][c] == CellState::Alive,
        live_neighbors(g, r, c) == 0,
    ensures
        next_grid(g)[r][c] == CellState::Dead,
{
    assert(g[r].len() == w + 2);
}

/// Randomizing two new boards of the same size with the same seed gives
/// the same grid.
pub proof fn lemma_randomize_deterministic(w1: int, h1: int, w2: int, h2: int, seed: u64)
    requires
        w1 >= 0,
        h1 >= 0,
        w1 == w2,
        h1 == h2,
    ensures
        randomized(fresh_grid(h1, w1), w1, seeded_bytes(seed, (h1 * w1) as nat)) == randomized(
            fresh_grid(h2, w2),
            w2,
            seeded_bytes(seed, (h2 * w2) as nat),
        ),
{
}

} // verus!
