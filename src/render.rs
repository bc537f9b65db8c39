use vstd::prelude::*;
use vstd::arithmetic::div_mod::lemma_fundamental_div_mod_converse;
use crate::board::Board;
use crate::cell::{glyph_of, CellState, BLANK, BLOCK, BORDER};
use crate::rules::{grid_wf, Grid};

verus! {

/// The glyphs of a row of cells.
pub open spec fn row_text(row: Seq<CellState>) -> Seq<char> {
    row.map_values(|s: CellState| glyph_of(s))
}

/// A row of cells as a line of text, ended by a line break.
pub open spec fn line_of(row: Seq<CellState>) -> Seq<char> {
    row_text(row).push('\n')
}

/// The text block of a grid: one line per row, in order.
pub open spec fn render_text(g: Grid) -> Seq<char>
    decreases g.len(),
{
    if g.len() == 0 {
        Seq::empty()
    } else {
        render_text(g.drop_last()) + line_of(g.last())
    }
}

/// Relies on std's `String::push`: appends `ch` at the end of `s`.
#[verifier::external_body]
fn push_char(s: &mut String, ch: char)
    ensures
        final(s)@ == old(s)@.push(ch),
{
    s.push(ch);
}

impl Board {
    /// The board as a block of text: every row, border rows included, as one
    /// line of glyphs followed by a line break. The board is only read.
    pub fn render(&self) -> (r: String)
        requires
            self.wf(),
        ensures
            r@ == render_text(self.states()),
    {
        let ghost g = self.states();
        let mut res = String::new();
        let mut r: usize = 0;
        while r < self.spaces.len()
            invariant
                self.wf(),
                g == self.states(),
                r <= g.len(),
                g.len() == self.spaces@.len(),
                res@ == render_text(g.take(r as int)),
            decreases g.len() - r,
        {
            let row = &self.spaces[r];
            assert(g[r as int] == row@.map_values(|cell: crate::cell::Cell| cell.state));
            let mut c: usize = 0;
            while c < row.len()
                invariant
                    self.wf(),
                    g == self.states(),
                    r < g.len(),
                    g.len() == self.spaces@.len(),
                    row == self.spaces@[r as int],
                    g[r as int].len() == row@.len(),
                    c <= row@.len(),
                    res@ == render_text(g.take(r as int)) + row_text(g[r as int]).take(c as int),
                decreases row@.len() - c,
            {
                assert(row@[c as int].wf());
                push_char(&mut res, row[c].symbol);
                assert(row_text(g[r as int]).take(c + 1) =~= row_text(g[r as int]).take(c as int).push(
                    glyph_of(g[r as int][c as int]),
                ));
                c = c + 1;
            }
            push_char(&mut res, '\n');
            assert(g.take(r + 1).drop_last() =~= g.take(r as int));
            assert(row_text(g[r as int]).take(c as int) =~= row_text(g[r as int]));
            r = r + 1;
        }
        assert(g.take(g.len() as int) =~= g);
        res
    }
}

/// Character `i` of the text of a grid whose rows all hold `m` cells is
/// character `i % (m + 1)` of line `i / (m + 1)`.
proof fn lemma_render_index(g: Grid, m: int)
    requires
        m >= 0,
        forall|r: int| 0 <= r < g.len() ==> #[trigger] g[r].len() == m,
    ensures
        render_text(g).len() == g.len() * (m + 1),
        forall|i: int|
            0 <= i < g.len() * (m + 1) ==> #[trigger] render_text(g)[i] == line_of(
                g[i / (m + 1)],
            )[i % (m + 1)],
    decreases g.len(),
{
    if g.len() > 0 {
        let p = g.drop_last();
        lemma_render_index(p, m);
        let n = p.len() as int;
        assert((n + 1) * (m + 1) == n * (m + 1) + (m + 1)) by (nonlinear_arith);
        assert forall|i: int| 0 <= i < g.len() * (m + 1) implies #[trigger] render_text(g)[i]
            == line_of(g[i / (m + 1)])[i % (m + 1)] by {
            if i < n * (m + 1) {
                assert(render_text(g)[i] == render_text(p)[i]);
                assert(0 <= i / (m + 1) < n) by {
                    vstd::arithmetic::div_mod::lemma_div_pos_is_pos(i, m + 1);
                    vstd::arithmetic::div_mod::lemma_div_is_ordered(i, n * (m + 1) - 1, m + 1);
                    vstd::arithmetic::div_mod::lemma_div_multiples_vanish_fancy(n - 1, m, m + 1);
                    assert((n - 1) * (m + 1) + m == n * (m + 1) - 1) by (nonlinear_arith);
                }
            } else {
                let j = i - n * (m + 1);
                lemma_fundamental_div_mod_converse(i, m + 1, n, j);
                assert(render_text(g)[i] == line_of(g.last())[j]);
            }
        }
    }
}

/// The text of a well-formed board of `h` rows and `w` columns has exactly
/// `h + 2` lines of `w + 2` characters: a line break stands exactly at every
/// position `w + 2` modulo `w + 3`, and every other character is one of the
/// three glyphs.
pub proof fn lemma_render_shape(g: Grid, h: int, w: int)
    requires
        grid_wf(g, h, w),
    ensures
        render_text(g).len() == (h + 2) * (w + 3),
        forall|i: int|
            0 <= i < render_text(g).len() ==> ((#[trigger] render_text(g)[i] == '\n') <==> i % (w
                + 3) == w + 2),
        forall|i: int|
            0 <= i < render_text(g).len() && render_text(g)[i] != '\n' ==> (#[trigger] render_text(
                g,
            )[i] == BLOCK || render_text(g)[i] == BORDER || render_text(g)[i] == BLANK),
{
    lemma_render_index(g, w + 2);
    assert forall|i: int| 0 <= i < render_text(g).len() implies ((#[trigger] render_text(g)[i]
        == '\n') <==> i % (w + 3) == w + 2) && (render_text(g)[i] == '\n' || render_text(g)[i]
        == BLOCK || render_text(g)[i] == BORDER || render_text(g)[i] == BLANK) by {
        let r = i / (w + 3);
        let j = i % (w + 3);
        assert(0 <= j < w + 3) by {
            vstd::arithmetic::div_mod::lemma_mod_bound(i, w + 3);
        }
        assert(0 <= r < h + 2) by {
            vstd::arithmetic::div_mod::lemma_div_pos_is_pos(i, w + 3);
            vstd::arithmetic::div_mod::lemma_fundamental_div_mod(i, w + 3);
            assert(r < h + 2) by (nonlinear_arith)
                requires
                    i == (w + 3) * r + j,
                    0 <= j,
                    i < (h + 2) * (w + 3),
                    w >= 0,
            ;
        }
        assert(g[r].len() == w + 2);
        if j < w + 2 {
            assert(line_of(g[r])[j] == glyph_of(g[r][j]));
        }
    }
}

} // verus!
