use vstd::prelude::*;
use rand::{RngCore, SeedableRng};
use crate::board::Board;
use crate::cell::{Cell, CellState};
use crate::rules::{grid_wf, on_ring, Grid};

verus! {

/// A drawn byte below this value makes a playable cell alive, so about one
/// cell in six starts alive.
pub const RAND_THRESHOLD: u8 = 42;

/// The `n` bytes that rand's standard generator, seeded from `seed`, yields.
pub uninterp spec fn seeded_bytes(seed: u64, n: nat) -> Seq<u8>;

/// Relies on rand's `StdRng::seed_from_u64` and `RngCore::fill_bytes`: the
/// buffer of `n` bytes is filled entirely, and `StdRng` is a deterministic
/// generator, so the bytes depend on `seed` and `n` alone.
#[verifier::external_body]
fn draw_bytes(seed: u64, n: usize) -> (r: Vec<u8>)
    ensures
        r@.len() == n,
        r@ == seeded_bytes(seed, n as nat),
{
    let mut bytes = vec![0u8; n];
    rand::rngs::StdRng::seed_from_u64(seed).fill_bytes(&mut bytes);
    bytes
}

/// Position in the drawn bytes of the playable cell `(r, c)`: playable
/// cells draw one byte each, row by row.
pub open spec fn draw_index(r: int, c: int, w: int) -> int {
    (r - 1) * w + (c - 1)
}

/// `g` after randomization with the bytes `bytes` on a board `w` playable
/// cells wide: a playable cell whose byte is below the threshold becomes
/// alive, every other cell keeps its state.
pub open spec fn randomized(g: Grid, w: int, bytes: Seq<u8>) -> Grid {
    Seq::new(
        g.len(),
        |r: int|
            Seq::new(
                g[r].len(),
                |c: int|
                    if g[r][c] != CellState::Border && bytes[draw_index(r, c, w)] < RAND_THRESHOLD {
                        CellState::Alive
                    } else {
                        g[r][c]
                    },
            ),
    )
}

/// The seed a run uses: the requested one, or `fresh` (a seed drawn at
/// startup) when the request is 0.
pub fn choose_seed(requested: u64, fresh: u64) -> (r: u64)
    ensures
        r == if requested == 0 {
            fresh
        } else {
            requested
        },
{
    if requested == 0 {
        fresh
    } else {
        requested
    }
}

impl Board {
    /// Fills the board from a generator seeded with `seed`: each playable
    /// cell, row by row, draws one byte and becomes alive when the byte is
    /// below `RAND_THRESHOLD`. The same seed on boards of the same size gives
    /// the same grid.
    pub fn randomize_rows(&mut self, seed: u64)
        requires
            old(self).wf(),
        ensures
            final(self).wf(),
            final(self).height == old(self).height,
            final(self).width == old(self).width,
            final(self).states() == randomized(
                old(self).states(),
                old(self).width as int,
                seeded_bytes(seed, (old(self).height * old(self).width) as nat),
            ),
            final(self).wills() == old(self).wills(),
    {
        proof {
            self.lemma_dims_fit();
        }
        let bytes = draw_bytes(seed, self.height * self.width);
        self.randomize_with_bytes(&bytes);
    }

    /// Fills the board from the drawn bytes `bytes`, one per playable cell in
    /// row order: a cell whose byte is below `RAND_THRESHOLD` becomes alive,
    /// every other cell keeps its state.
    pub fn randomize_with_bytes(&mut self, bytes: &Vec<u8>)
        requires
            old(self).wf(),
            bytes@.len() == old(self).height * old(self).width,
        ensures
            final(self).wf(),
            final(self).height == old(self).height,
            final(self).width == old(self).width,
            final(self).states() == randomized(old(self).states(), old(self).width as int, bytes@),
            final(self).wills() == old(self).wills(),
    {
        let ghost g0 = self.states();
        let ghost w0 = self.wills();
        let ghost h = self.height as int;
        let ghost w = self.width as int;
        proof {
            self.lemma_dims_fit();
        }
        let ghost target = randomized(g0, w, bytes@);
        let mut k: usize = 0;
        let mut r: usize = 1;
        while r <= self.height
            invariant
                1 <= r <= h + 1,
                h + 2 <= usize::MAX,
                w + 2 <= usize::MAX,
                bytes@.len() == h * w,
                h * w <= usize::MAX,
                k == (r - 1) * w,
                self.wf(),
                self.height == h,
                self.width == w,
                self.wills() == w0,
                target == randomized(g0, w, bytes@),
                grid_wf(g0, h, w),
                forall|rr: int, cc: int|
                    0 <= rr < h + 2 && 0 <= cc < w + 2 ==> #[trigger] self.states()[rr][cc] == if 1
                        <= rr < r {
                        target[rr][cc]
                    } else {
                        g0[rr][cc]
                    },
            decreases h + 1 - r,
        {
            let mut c: usize = 1;
            while c <= self.width
                invariant
                    1 <= r <= h,
                    1 <= c <= w + 1,
                    h + 2 <= usize::MAX,
                    w + 2 <= usize::MAX,
                    bytes@.len() == h * w,
                    h * w <= usize::MAX,
                    k == (r - 1) * w + (c - 1),
                    self.wf(),
                    self.height == h,
                    self.width == w,
                    self.wills() == w0,
                    target == randomized(g0, w, bytes@),
                    grid_wf(g0, h, w),
                    forall|rr: int, cc: int|
                        0 <= rr < h + 2 && 0 <= cc < w + 2 ==> #[trigger] self.states()[rr][cc] == if 1
                            <= rr < r || (rr == r && 1 <= cc < c) {
                            target[rr][cc]
                        } else {
                            g0[rr][cc]
                        },
                decreases w + 1 - c,
            {
                assert(k < h * w) by (nonlinear_arith)
                    requires
                        k == (r - 1) * w + (c - 1),
                        1 <= r <= h,
                        1 <= c <= w,
                ;
                assert(self.states()[r as int].len() == w + 2);
                assert(self.spaces@[r as int]@.len() == w + 2);
                assert(self.states()[r as int][c as int] == g0[r as int][c as int]);
                assert(!on_ring(r as int, c as int, h, w));
                assert(g0[r as int][c as int] != CellState::Border);
                assert(g0[r as int].len() == w + 2);
                if bytes[k] < RAND_THRESHOLD {
                    let mut cell = self.spaces[r][c];
                    cell.set_state(CellState::Alive);
                    let ghost gb = self.states();
                    let ghost wb = self.wills();
                    self.replace_cell(r, c, cell);
                    assert(self.wills() =~~= wb);
                    assert(forall|rr: int, cc: int|
                        0 <= rr < h + 2 && 0 <= cc < w + 2 && (rr != r || cc != c)
                            ==> #[trigger] self.states()[rr][cc] == gb[rr][cc]);
                }
                assert(self.states()[r as int][c as int] == target[r as int][c as int]);
                k = k + 1;
                c = c + 1;
            }
            assert forall|cc: int| 0 <= cc < w + 2 implies #[trigger] self.states()[r as int][cc]
                == target[r as int][cc] by {
                if cc == 0 || cc == w + 1 {
                    assert(on_ring(r as int, cc, h, w));
                    assert(g0[r as int][cc] == CellState::Border);
                }
            }
            assert(k == r * w) by (nonlinear_arith)
                requires
                    k == (r - 1) * w + w,
            ;
            r = r + 1;
        }
        proof {
            assert forall|rr: int, cc: int|
                0 <= rr < h + 2 && 0 <= cc < w + 2 && !(1 <= rr <= h) implies g0[rr][cc]
                == target[rr][cc] by {
                assert(on_ring(rr, cc, h, w));
            }
            let g = self.states();
            assert forall|rr: int, cc: int| 0 <= rr < h + 2 && 0 <= cc < w + 2 implies #[trigger] g[rr][cc]
                == target[rr][cc] by {
                if !(1 <= rr <= h) {
                    assert(g0[rr][cc] == target[rr][cc]);
                }
            }
            assert(g =~~= target);
        }
    }
}

} // verus!
