use vstd::prelude::*;
use crate::cell::{Cell, CellState};
use crate::laws::lemma_border_fixed;
use crate::rules::{alive_at, generation, grid_wf, interior, live_neighbors, next_cell, next_grid, on_ring, Grid};

verus! {

/// A rectangular Game of Life board: `height` rows of `width` playable cells,
/// surrounded by a ring of border cells.
pub struct Board {
    pub spaces: Vec<Vec<Cell>>,
    pub height: usize,
    pub width: usize,
}

impl Board {
    /// The states of all cells, border included.
    pub open spec fn states(&self) -> Grid {
        self.spaces@.map_values(|row: Vec<Cell>| row@.map_values(|cell: Cell| cell.state))
    }

    /// The pending verdicts of all cells.
    pub open spec fn wills(&self) -> Seq<Seq<bool>> {
        self.spaces@.map_values(|row: Vec<Cell>| row@.map_values(|cell: Cell| cell.will_live))
    }

    /// The shape holds, the ring is made of border cells and only of them,
    /// every cached glyph is current, and the cell count fits in `usize`.
    pub open spec fn wf(&self) -> bool {
        &&& grid_wf(self.states(), self.height as int, self.width as int)
        &&& (self.height + 2) * (self.width + 2) <= usize::MAX
        &&& forall|r: int, c: int|
            0 <= r < self.spaces@.len() && 0 <= c < self.spaces@[r]@.len()
                ==> (#[trigger] self.spaces@[r]@[c]).wf()
    }

    /// The padded dimensions fit in `usize`.
    pub proof fn lemma_dims_fit(&self)
        requires
            self.wf(),
        ensures
            self.height + 2 <= usize::MAX,
            self.width + 2 <= usize::MAX,
            self.height * self.width <= usize::MAX,
    {
        let h = self.height as int;
        let w = self.width as int;
        assert(h + 2 <= (h + 2) * (w + 2) && w + 2 <= (h + 2) * (w + 2) && h * w <= (h + 2) * (w
            + 2)) by (nonlinear_arith)
            requires
                h >= 0,
                w >= 0,
        ;
    }

    /// A board of `height` rows and `width` columns of dead cells inside a
    /// ring of border cells. A zero width or height gives a board with no
    /// playable cell.
    pub fn new(width: usize, height: usize) -> (r: Board)
        requires
            (height + 2) * (width + 2) <= usize::MAX,
        ensures
            r.wf(),
            r.width == width,
            r.height == height,
            r.states() == fresh_grid(height as int, width as int),
            all_false(r.wills()),
    {
        assert(height + 2 <= usize::MAX && width + 2 <= usize::MAX) by (nonlinear_arith)
            requires
                (height + 2) * (width + 2) <= usize::MAX,
        ;
        let mut cells: Vec<Vec<Cell>> = Vec::new();
        cells.push(Board::border_row(width + 2));
        let mut i: usize = 0;
        while i < height
            invariant
                i <= height,
                height + 2 <= usize::MAX,
                width + 2 <= usize::MAX,
                cells@.len() == i + 1,
                forall|r: int, c: int|
                    0 <= r < cells@.len() && 0 <= c < width + 2 ==> (#[trigger] cells@[r]@[c])
                        == Cell::fresh(fresh_grid(height as int, width as int)[r][c]),
                forall|r: int| 0 <= r < cells@.len() ==> (#[trigger] cells@[r])@.len() == width + 2,
            decreases height - i,
        {
            cells.push(pad(Board::dead_row(width)));
            i = i + 1;
        }
        cells.push(Board::border_row(width + 2));
        let b = Board { spaces: cells, width, height };
        assert(b.states() =~~= fresh_grid(height as int, width as int));
        b
    }

    fn border_row(n: usize) -> (r: Vec<Cell>)
        ensures
            r@ == Seq::new(n as nat, |c: int| Cell::fresh(CellState::Border)),
    {
        let mut row: Vec<Cell> = Vec::new();
        while row.len() < n
            invariant
                row@ == Seq::new(row@.len(), |c: int| Cell::fresh(CellState::Border)),
                row@.len() <= n,
            decreases n - row@.len(),
        {
            row.push(Cell::new(CellState::Border));
            assert(row@ =~= Seq::new(row@.len(), |c: int| Cell::fresh(CellState::Border)));
        }
        row
    }

    fn dead_row(n: usize) -> (r: Vec<Cell>)
        ensures
            r@ == Seq::new(n as nat, |c: int| Cell::fresh(CellState::Dead)),
    {
        let mut row: Vec<Cell> = Vec::new();
        while row.len() < n
            invariant
                row@ == Seq::new(row@.len(), |c: int| Cell::fresh(CellState::Dead)),
                row@.len() <= n,
            decreases n - row@.len(),
        {
            row.push(Cell::new(CellState::Dead));
            assert(row@ =~= Seq::new(row@.len(), |c: int| Cell::fresh(CellState::Dead)));
        }
        row
    }

    /// The number of live cells among the eight neighbours of the interior
    /// cell at `(row, col)`; the ring keeps every neighbour on the grid.
    pub fn neighbour_check(&self, row: usize, col: usize) -> (r: usize)
        requires
            self.wf(),
            interior(row as int, col as int, self.height as int, self.width as int),
        ensures
            r == live_neighbors(self.states(), row as int, col as int),
            r <= 8,
    {
        proof {
            self.lemma_dims_fit();
            assert(self.states()[row - 1].len() == self.width + 2);
            assert(self.states()[row as int].len() == self.width + 2);
            assert(self.states()[row + 1].len() == self.width + 2);
        }
        let n = self.alive_count(row, col + 1) + self.alive_count(row, col - 1);
        let n = n + self.alive_count(row - 1, col - 1) + self.alive_count(row + 1, col + 1);
        let n = n + self.alive_count(row + 1, col - 1) + self.alive_count(row - 1, col + 1);
        n + self.alive_count(row - 1, col) + self.alive_count(row + 1, col)
    }

    fn alive_count(&self, r: usize, c: usize) -> (n: usize)
        requires
            r < self.states().len(),
            c < self.states()[r as int].len(),
        ensures
            n == alive_at(self.states(), r as int, c as int),
    {
        match self.spaces[r][c].state {
            CellState::Alive => 1,
            _ => 0,
        }
    }

    /// Puts `cell` at `(r, c)` in place of a cell that is on the border
    /// exactly when `cell` is.
    pub(crate) fn replace_cell(&mut self, r: usize, c: usize, cell: Cell)
        requires
            old(self).wf(),
            r < old(self).states().len(),
            c < old(self).states()[r as int].len(),
            cell.wf(),
            (cell.state == CellState::Border) == (old(self).states()[r as int][c as int]
                == CellState::Border),
        ensures
            final(self).wf(),
            final(self).height == old(self).height,
            final(self).width == old(self).width,
            final(self).states() == old(self).states().update(
                r as int,
                old(self).states()[r as int].update(c as int, cell.state),
            ),
            final(self).wills() == old(self).wills().update(
                r as int,
                old(self).wills()[r as int].update(c as int, cell.will_live),
            ),
    {
        let ghost g0 = self.states();
        let ghost w0 = self.wills();
        self.spaces[r][c] = cell;
        proof {
            assert(self.states() =~~= g0.update(r as int, g0[r as int].update(c as int, cell.state)));
            assert(self.wills() =~~= w0.update(r as int, w0[r as int].update(c as int, cell.will_live)));
            let g = self.states();
            assert forall|rr: int, cc: int|
                0 <= rr < self.spaces@.len() && 0 <= cc < self.spaces@[rr]@.len()
                implies (#[trigger] self.spaces@[rr]@[cc]).wf() by {
                if rr != r || cc != c {
                    assert(self.spaces@[rr]@[cc] == old(self).spaces@[rr]@[cc]);
                }
            }
            assert forall|rr: int, cc: int|
                0 <= rr < self.height + 2 && 0 <= cc < self.width + 2
                implies ((#[trigger] g[rr][cc] == CellState::Border) <==> on_ring(
                rr, cc, self.height as int, self.width as int)) by {
                if rr != r || cc != c {
                    assert(g[rr][cc] == g0[rr][cc]);
                }
            }
        }
    }

    /// Decide pass: records in every playable cell whether it lives in the
    /// next generation, judged from the current states alone. No state
    /// changes and border cells are left untouched.
    pub fn update_will(&mut self)
        requires
            old(self).wf(),
        ensures
            final(self).wf(),
            final(self).height == old(self).height,
            final(self).width == old(self).width,
            final(self).states() == old(self).states(),
            final(self).wills().len() == old(self).wills().len(),
            forall|r: int|
                0 <= r < old(self).wills().len() ==> (#[trigger] final(self).wills()[r]).len()
                    == old(self).wills()[r].len(),
            forall|r: int, c: int|
                interior(r, c, old(self).height as int, old(self).width as int)
                    ==> #[trigger] final(self).wills()[r][c] == (next_cell(old(self).states(), r, c)
                    == CellState::Alive),
            forall|r: int, c: int|
                0 <= r < old(self).height + 2 && 0 <= c < old(self).width + 2 && on_ring(
                    r,
                    c,
                    old(self).height as int,
                    old(self).width as int,
                ) ==> #[trigger] final(self).wills()[r][c] == old(self).wills()[r][c],
    {
        let ghost g0 = self.states();
        let ghost w0 = self.wills();
        let ghost h = self.height as int;
        let ghost w = self.width as int;
        proof {
            self.lemma_dims_fit();
        }
        let mut r: usize = 1;
        while r <= self.height
            invariant
                1 <= r <= h + 1,
                h + 2 <= usize::MAX,
                w + 2 <= usize::MAX,
                self.wf(),
                self.height == h,
                self.width == w,
                self.states() == g0,
                self.wills().len() == w0.len(),
                forall|rr: int| 0 <= rr < w0.len() ==> (#[trigger] self.wills()[rr]).len() == w0[rr].len(),
                forall|rr: int, cc: int|
                    0 <= rr < h + 2 && 0 <= cc < w + 2 ==> #[trigger] self.wills()[rr][cc] == if 1 <= rr
                        < r && 1 <= cc <= w {
                        next_cell(g0, rr, cc) == CellState::Alive
                    } else {
                        w0[rr][cc]
                    },
            decreases h + 1 - r,
        {
            let mut c: usize = 1;
            while c <= self.width
                invariant
                    1 <= r <= h,
                    1 <= c <= w + 1,
                    h + 2 <= usize::MAX,
                    w + 2 <= usize::MAX,
                    self.wf(),
                    self.height == h,
                    self.width == w,
                    self.states() == g0,
                    self.wills().len() == w0.len(),
                    forall|rr: int| 0 <= rr < w0.len() ==> (#[trigger] self.wills()[rr]).len() == w0[rr].len(),
                    forall|rr: int, cc: int|
                        0 <= rr < h + 2 && 0 <= cc < w + 2 ==> #[trigger] self.wills()[rr][cc] == if (1
                            <= rr < r && 1 <= cc <= w) || (rr == r && 1 <= cc < c) {
                            next_cell(g0, rr, cc) == CellState::Alive
                        } else {
                            w0[rr][cc]
                        },
                decreases w + 1 - c,
            {
                let n = self.neighbour_check(r, c);
                assert(self.states()[r as int].len() == w + 2);
                assert(self.spaces@[r as int]@.len() == w + 2);
                let cell = self.spaces[r][c];
                let verdict = match cell.state {
                    CellState::Alive => n == 2 || n == 3,
                    CellState::Dead => n == 3,
                    CellState::Border => false,
                };
                let ghost wb = self.wills();
                self.replace_cell(r, c, Cell { state: cell.state, will_live: verdict, symbol: cell.symbol });
                assert(self.states() =~~= g0);
                assert(self.wills()[r as int][c as int] == verdict);
                assert(forall|rr: int, cc: int| 0 <= rr < h + 2 && 0 <= cc < w + 2 && (rr != r || cc != c)
                    ==> #[trigger] self.wills()[rr][cc] == wb[rr][cc]);
                c = c + 1;
            }
            r = r + 1;
        }
    }

    /// Commit pass: every playable cell becomes alive when its verdict is
    /// `true` and dead otherwise, and its verdict is reset to `false`. Border
    /// cells are left untouched.
    pub fn change_based_on_will(&mut self)
        requires
            old(self).wf(),
        ensures
            final(self).wf(),
            final(self).height == old(self).height,
            final(self).width == old(self).width,
            forall|r: int, c: int|
                0 <= r < old(self).height + 2 && 0 <= c < old(self).width + 2
                    ==> #[trigger] final(self).states()[r][c] == committed(
                    old(self).states()[r][c],
                    old(self).wills()[r][c],
                ),
            forall|r: int, c: int|
                0 <= r < old(self).height + 2 && 0 <= c < old(self).width + 2
                    ==> #[trigger] final(self).wills()[r][c] == (old(self).wills()[r][c]
                    && old(self).states()[r][c] == CellState::Border),
    {
        let ghost g0 = self.states();
        let ghost w0 = self.wills();
        let ghost h = self.height as int;
        let ghost w = self.width as int;
        proof {
            self.lemma_dims_fit();
        }
        proof {
            assert forall|rr: int| 0 <= rr < h + 2 implies (#[trigger] self.wills()[rr]).len() == w
                + 2 by {
                assert(self.states()[rr].len() == w + 2);
            }
        }
        let mut r: usize = 1;
        while r <= self.height
            invariant
                1 <= r <= h + 1,
                h + 2 <= usize::MAX,
                w + 2 <= usize::MAX,
                self.wf(),
                self.height == h,
                self.width == w,
                self.wills().len() == h + 2,
                forall|rr: int| 0 <= rr < h + 2 ==> (#[trigger] self.wills()[rr]).len() == w + 2,
                forall|rr: int, cc: int|
                    0 <= rr < h + 2 && 0 <= cc < w + 2 ==> #[trigger] self.states()[rr][cc] == if 1
                        <= rr < r && 1 <= cc <= w {
                        committed(g0[rr][cc], w0[rr][cc])
                    } else {
                        g0[rr][cc]
                    },
                forall|rr: int, cc: int|
                    0 <= rr < h + 2 && 0 <= cc < w + 2 ==> #[trigger] self.wills()[rr][cc] == if 1
                        <= rr < r && 1 <= cc <= w {
                        false
                    } else {
                        w0[rr][cc]
                    },
            decreases h + 1 - r,
        {
            let mut c: usize = 1;
            while c <= self.width
                invariant
                    1 <= r <= h,
                    1 <= c <= w + 1,
                    h + 2 <= usize::MAX,
                    w + 2 <= usize::MAX,
                    self.wf(),
                    self.height == h,
                    self.width == w,
                    self.wills().len() == h + 2,
                    forall|rr: int| 0 <= rr < h + 2 ==> (#[trigger] self.wills()[rr]).len() == w + 2,
                    forall|rr: int, cc: int|
                        0 <= rr < h + 2 && 0 <= cc < w + 2 ==> #[trigger] self.states()[rr][cc] == if (1
                            <= rr < r && 1 <= cc <= w) || (rr == r && 1 <= cc < c) {
                            committed(g0[rr][cc], w0[rr][cc])
                        } else {
                            g0[rr][cc]
                        },
                    forall|rr: int, cc: int|
                        0 <= rr < h + 2 && 0 <= cc < w + 2 ==> #[trigger] self.wills()[rr][cc] == if (1
                            <= rr < r && 1 <= cc <= w) || (rr == r && 1 <= cc < c) {
                            false
                        } else {
                            w0[rr][cc]
                        },
                decreases w + 1 - c,
            {
                assert(self.states()[r as int].len() == w + 2);
                assert(self.spaces@[r as int]@.len() == w + 2);
                let will = self.spaces[r][c].will_live;
                assert(self.wills()[r as int][c as int] == w0[r as int][c as int]);
                assert(self.wills()[r as int][c as int] == will);
                assert(self.states()[r as int][c as int] == g0[r as int][c as int]);
                assert(self.states()[r as int][c as int] != CellState::Border);
                let state = if will {
                    CellState::Alive
                } else {
                    CellState::Dead
                };
                let ghost gb = self.states();
                let ghost wb = self.wills();
                assert(!on_ring(r as int, c as int, h, w));
                self.replace_cell(r, c, Cell::new(state));
                assert(forall|rr: int, cc: int| 0 <= rr < h + 2 && 0 <= cc < w + 2 && (rr != r || cc != c)
                    ==> #[trigger] self.states()[rr][cc] == gb[rr][cc]);
                assert(forall|rr: int, cc: int| 0 <= rr < h + 2 && 0 <= cc < w + 2 && (rr != r || cc != c)
                    ==> #[trigger] self.wills()[rr][cc] == wb[rr][cc]);
                c = c + 1;
            }
            r = r + 1;
        }
        proof {
            assert forall|rr: int, cc: int|
                0 <= rr < h + 2 && 0 <= cc < w + 2 && !interior(rr, cc, h, w)
                implies g0[rr][cc] == CellState::Border by {
                assert(on_ring(rr, cc, h, w));
            }
        }
    }

    /// Advances the board by one generation: the decide pass over the whole
    /// grid, then the commit pass.
    pub fn step(&mut self)
        requires
            old(self).wf(),
        ensures
            final(self).wf(),
            final(self).height == old(self).height,
            final(self).width == old(self).width,
            final(self).states() == next_grid(old(self).states()),
            forall|r: int, c: int|
                interior(r, c, old(self).height as int, old(self).width as int)
                    ==> !#[trigger] final(self).wills()[r][c],
    {
        let ghost g0 = self.states();
        let ghost h = self.height as int;
        let ghost w = self.width as int;
        self.update_will();
        self.change_based_on_will();
        proof {
            let g = self.states();
            assert forall|r: int, c: int| 0 <= r < h + 2 && 0 <= c < w + 2 implies #[trigger] g[r][c]
                == next_grid(g0)[r][c] by {
                if !on_ring(r, c, h, w) {
                    assert(interior(r, c, h, w));
                }
            }
            assert(g =~~= next_grid(g0));
        }
    }

    /// Advances the board by `generations` generations, one `step` each.
    /// Border cells stay border cells and no other cell becomes one.
    pub fn advance(&mut self, generations: u64)
        requires
            old(self).wf(),
        ensures
            final(self).wf(),
            final(self).height == old(self).height,
            final(self).width == old(self).width,
            final(self).states() == generation(old(self).states(), generations as nat),
            forall|r: int, c: int|
                0 <= r < old(self).height + 2 && 0 <= c < old(self).width + 2 ==> ((
                #[trigger] final(self).states()[r][c] == CellState::Border) <==> old(
                    self,
                ).states()[r][c] == CellState::Border),
    {
        let ghost g0 = self.states();
        let mut i: u64 = 0;
        while i < generations
            invariant
                i <= generations,
                self.wf(),
                self.height == old(self).height,
                self.width == old(self).width,
                self.states() == generation(g0, i as nat),
            decreases generations - i,
        {
            self.step();
            i = i + 1;
        }
        proof {
            lemma_border_fixed(g0, self.height as int, self.width as int, generations as nat);
        }
    }

    /// The state of the cell at `(r, c)`, border positions included.
    pub fn state_at(&self, r: usize, c: usize) -> (s: CellState)
        requires
            self.wf(),
            r < self.height + 2,
            c < self.width + 2,
        ensures
            s == self.states()[r as int][c as int],
    {
        assert(self.states()[r as int].len() == self.width + 2);
        self.spaces[r][c].state
    }

    /// Makes the playable cell at `(r, c)` alive or dead, to lay out a
    /// pattern; every other cell and every verdict is left as it was.
    pub fn set_alive(&mut self, r: usize, c: usize, alive: bool)
        requires
            old(self).wf(),
            interior(r as int, c as int, old(self).height as int, old(self).width as int),
        ensures
            final(self).wf(),
            final(self).height == old(self).height,
            final(self).width == old(self).width,
            final(self).states() == old(self).states().update(
                r as int,
                old(self).states()[r as int].update(
                    c as int,
                    if alive {
                        CellState::Alive
                    } else {
                        CellState::Dead
                    },
                ),
            ),
            final(self).wills() == old(self).wills(),
    {
        proof {
            self.lemma_dims_fit();
        }
        assert(self.states()[r as int].len() == self.width + 2);
        assert(self.spaces@[r as int]@.len() == self.width + 2);
        assert(!on_ring(r as int, c as int, self.height as int, self.width as int));
        let mut cell = self.spaces[r][c];
        cell.set_state(
            if alive {
                CellState::Alive
            } else {
                CellState::Dead
            },
        );
        let ghost w0 = self.wills();
        self.replace_cell(r, c, cell);
        assert(self.wills() =~~= w0);
    }

}

/// Every verdict is `false`.
pub open spec fn all_false(w: Seq<Seq<bool>>) -> bool {
    forall|r: int, c: int| 0 <= r < w.len() && 0 <= c < w[r].len() ==> !#[trigger] w[r][c]
}

/// The grid of a new board: border on the ring, dead inside.
pub open spec fn fresh_grid(h: int, w: int) -> Grid {
    Seq::new(
        (h + 2) as nat,
        |r: int|
            Seq::new(
                (w + 2) as nat,
                |c: int|
                    if on_ring(r, c, h, w) {
                        CellState::Border
                    } else {
                        CellState::Dead
                    },
            ),
    )
}

/// `v` with one border cell added at each end.
pub fn pad(v: Vec<Cell>) -> (r: Vec<Cell>)
    requires
        v@.len() + 2 <= usize::MAX,
    ensures
        r@ == seq![Cell::fresh(CellState::Border)] + v@ + seq![Cell::fresh(CellState::Border)],
{
    let mut v = v;
    let ghost v0 = v@;
    v.insert(0, Cell::new(CellState::Border));
    v.push(Cell::new(CellState::Border));
    assert(v@ =~= seq![Cell::fresh(CellState::Border)] + v0 + seq![Cell::fresh(CellState::Border)]);
    v
}


/// The state a playable cell takes in the commit pass given its verdict;
/// a border cell keeps its state.
pub open spec fn committed(s: CellState, will: bool) -> CellState {
    if s == CellState::Border {
        CellState::Border
    } else if will {
        CellState::Alive
    } else {
        CellState::Dead
    }
}

} // verus!
