use vstd::prelude::*;

verus! {

/// Glyph shown for a live cell.
pub const BLOCK: char = '█';

/// Glyph shown for a border cell.
pub const BORDER: char = '▒';

/// Glyph shown for a dead cell.
pub const BLANK: char = ' ';

/// The three states a cell can be in. `Border` cells form the sentinel ring
/// around the playable area and never change.
#[derive(Debug, Clone, Copy, PartialEq, Eq, Structural)]
pub enum CellState {
    Alive,
    Border,
    Dead,
}

/// The display glyph of a state.
pub open spec fn glyph_of(state: CellState) -> char {
    match state {
        CellState::Alive => BLOCK,
        CellState::Border => BORDER,
        CellState::Dead => BLANK,
    }
}

/// One square of the grid: its state, the verdict for the next generation,
/// and the cached glyph of its state.
#[derive(Debug, Clone, Copy)]
pub struct Cell {
    pub state: CellState,
    pub will_live: bool,
    pub symbol: char,
}

impl Cell {
    /// A cell in `state` with no pending verdict and the matching glyph.
    pub open spec fn fresh(state: CellState) -> Cell {
        Cell { state, will_live: false, symbol: glyph_of(state) }
    }

    /// The cached glyph agrees with the state.
    pub open spec fn wf(&self) -> bool {
        self.symbol == glyph_of(self.state)
    }

    pub fn glyph(state: CellState) -> (r: char)
        ensures
            r == glyph_of(state),
    {
        match state {
            CellState::Alive => BLOCK,
            CellState::Border => BORDER,
            CellState::Dead => BLANK,
        }
    }

    /// A cell in `state`, with no pending verdict.
    pub fn new(state: CellState) -> (r: Cell)
        ensures
            r == Cell::fresh(state),
            r.wf(),
    {
        Cell { state, will_live: false, symbol: Cell::glyph(state) }
    }

    /// Changes the state and refreshes the cached glyph; the pending verdict
    /// is left as it was.
    pub fn set_state(&mut self, state: CellState)
        ensures
            final(self).state == state,
            final(self).will_live == old(self).will_live,
            final(self).wf(),
    {
        self.state = state;
        self.symbol = Cell::glyph(state);
    }
}

} // verus!
