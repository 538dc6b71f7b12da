//! The 3x3 board: cell states, the turn counter, geometry enumeration,
//! hit-testing and the click step of the frame loop.

use vstd::prelude::*;
use crate::rect::{Rect, cell_contains, cell_x, cell_y, cell_w, cell_h, geom_fits};

verus! {

/// The mark a player leaves in a cell. An unmarked cell is `None`.
#[derive(Clone, Copy, Debug, PartialEq, Eq, Structural)]
pub enum TileState {
    X,
    O,
}

/// The mark placed by the move made when the turn counter reads `t`:
/// `X` on even turns, `O` on odd ones.
pub open spec fn turn_tile(t: int) -> TileState {
    if t % 2 == 0 {
        TileState::X
    } else {
        TileState::O
    }
}

/// The fill a cell is drawn with: one color class per cell state.
#[derive(Clone, Copy, Debug, PartialEq, Eq, Structural)]
pub enum CellColor {
    Neutral,
    PlayerX,
    PlayerO,
}

/// The fill for a cell in state `s`: neutral when empty, and one accent
/// color per player's mark.
pub open spec fn fill_of(s: Option<TileState>) -> CellColor {
    match s {
        Some(TileState::X) => CellColor::PlayerX,
        Some(TileState::O) => CellColor::PlayerO,
        None => CellColor::Neutral,
    }
}

/// Pick the fill color class for a cell state.
pub fn fill_color(state: &Option<TileState>) -> (c: CellColor)
    ensures
        c == fill_of(*state),
{
    match state {
        Some(TileState::X) => CellColor::PlayerX,
        Some(TileState::O) => CellColor::PlayerO,
        None => CellColor::Neutral,
    }
}

/// The whole game state: how many marks were placed, the drawable area,
/// and the 3x3 grid of cell states, indexed `[row][col]`.
pub struct Board {
    turn: u8,
    bounds: Rect,
    states: [[Option<TileState>; 3]; 3],
}

/// 1 for a marked cell, 0 for an empty one.
pub open spec fn count_opt(s: Option<TileState>) -> int {
    if s is Some {
        1
    } else {
        0
    }
}

impl Board {
    /// The state of cell `(row, col)`.
    pub closed spec fn cell_state(self, row: int, col: int) -> Option<TileState>
        recommends
            0 <= row < 3,
            0 <= col < 3,
    {
        self.states[row][col]
    }

    /// The bounds the board was created with.
    pub closed spec fn spec_bounds(self) -> Rect {
        self.bounds
    }

    /// The number of marks placed so far.
    pub closed spec fn spec_turn(self) -> int {
        self.turn as int
    }

    /// How many of the nine cells carry a mark.
    pub open spec fn count_marked(self) -> int {
        count_opt(self.cell_state(0, 0)) + count_opt(self.cell_state(0, 1))
            + count_opt(self.cell_state(0, 2)) + count_opt(self.cell_state(1, 0))
            + count_opt(self.cell_state(1, 1)) + count_opt(self.cell_state(1, 2))
            + count_opt(self.cell_state(2, 0)) + count_opt(self.cell_state(2, 1))
            + count_opt(self.cell_state(2, 2))
    }

    /// The turn counter always equals the number of marked cells: a cell is
    /// marked only once, and each mark advances the counter by one.
    #[verifier::type_invariant]
    spec fn wf(self) -> bool {
        self.spec_turn() == self.count_marked()
    }

    /// A fresh board over `bounds`: no marks, turn counter at zero.
    pub fn new(bounds: Rect) -> (b: Board)
        ensures
            b.spec_turn() == 0,
            b.spec_bounds() == bounds,
            forall|r: int, c: int|
                0 <= r < 3 && 0 <= c < 3 ==> b.cell_state(r, c) is None,
    {
        Board {
            turn: 0,
            bounds,
            states: [[None, None, None], [None, None, None], [None, None, None]],
        }
    }

    /// How `mark` changes a board: the turn counter advances by one, the
    /// bounds stay, the target cell takes the mark of the old turn's player,
    /// and every other cell keeps its state.
    pub open spec fn marks(pre: Board, post: Board, row: int, col: int) -> bool {
        &&& post.spec_turn() == pre.spec_turn() + 1
        &&& post.spec_bounds() == pre.spec_bounds()
        &&& post.cell_state(row, col) == Some(turn_tile(pre.spec_turn()))
        &&& forall|r: int, c: int|
            0 <= r < 3 && 0 <= c < 3 && !(r == row && c == col)
                ==> post.cell_state(r, c) == pre.cell_state(r, c)
    }

    /// Place the current player's mark in the empty cell `(row, col)` and
    /// advance the turn counter.
    pub fn mark(&mut self, row: u8, col: u8)
        requires
            row < 3,
            col < 3,
            old(self).cell_state(row as int, col as int) is None,
        ensures
            Board::marks(*old(self), *final(self), row as int, col as int),
    {
        proof {
            use_type_invariant(&*self);
        }
        let tile = if self.turn % 2 == 0 {
            TileState::X
        } else {
            TileState::O
        };
        let mut states = self.states;
        let mut row_cells = states[row as usize];
        row_cells[col as usize] = Some(tile);
        states[row as usize] = row_cells;
        *self = Board { turn: self.turn + 1, bounds: self.bounds, states };
    }

    /// The number of marks placed so far.
    pub fn turn(&self) -> (t: u8)
        ensures
            t as int == self.spec_turn(),
    {
        self.turn
    }

    /// Whether this board's bounds admit cell geometry; callers outside the
    /// verified library can test this before asking for geometry or hits.
    pub fn geometry_fits(&self) -> (b: bool)
        ensures
            b == geom_fits(self.spec_bounds()),
    {
        let r = self.bounds;
        if r.width < 0 || r.height < 0 {
            return false;
        }
        let max64 = i32::MAX as i64;
        (r.x as i64) + 2 * ((r.width / 3) as i64) <= max64
            && (r.y as i64) + 2 * ((r.height / 3) as i64) <= max64
    }

    /// The cell at index `i` of the row-major enumeration (row `i / 3`,
    /// column `i % 3`) is empty and its rectangle holds `(px, py)`.
    pub open spec fn hit_at(self, i: int, px: int, py: int) -> bool {
        &&& cell_contains(self.spec_bounds(), i / 3, i % 3, px, py)
        &&& self.cell_state(i / 3, i % 3) is None
    }

    /// `r` is the first cell, in row-major order, that is empty and whose
    /// rectangle holds `(px, py)` -- or `None` when no cell qualifies.
    pub open spec fn is_first_hit(self, px: int, py: int, r: Option<(u8, u8)>) -> bool {
        match r {
            Some(cell) => {
                &&& cell.0 < 3
                &&& cell.1 < 3
                &&& self.hit_at(cell.0 as int * 3 + cell.1 as int, px, py)
                &&& forall|j: int|
                    0 <= j < cell.0 as int * 3 + cell.1 as int ==> !self.hit_at(j, px, py)
            },
            None => forall|j: int| 0 <= j < 9 ==> !self.hit_at(j, px, py),
        }
    }

    /// The nine cell rectangles, keyed by `(row, col)`, in row-major order.
    /// Recomputed from the bounds on every call; nothing is cached.
    pub fn bounds_iter(&self) -> (v: Vec<((u8, u8), Rect)>)
        requires
            geom_fits(self.spec_bounds()),
        ensures
            v@.len() == 9,
            forall|i: int| 0 <= i < 9 ==> (#[trigger] v@[i]).0.0 as int == i / 3,
            forall|i: int| 0 <= i < 9 ==> (#[trigger] v@[i]).0.1 as int == i % 3,
            forall|i: int|
                0 <= i < 9 ==> {
                    let r = (#[trigger] v@[i]).1;
                    &&& r.x == cell_x(self.spec_bounds(), i % 3)
                    &&& r.y == cell_y(self.spec_bounds(), i / 3)
                    &&& r.width == cell_w(self.spec_bounds())
                    &&& r.height == cell_h(self.spec_bounds())
                },
    {
        let mut v: Vec<((u8, u8), Rect)> = Vec::new();
        let mut i: u8 = 0;
        while i < 9
            invariant
                geom_fits(self.spec_bounds()),
                i <= 9,
                v@.len() == i as int,
                forall|j: int| 0 <= j < i as int ==> (#[trigger] v@[j]).0.0 as int == j / 3,
                forall|j: int| 0 <= j < i as int ==> (#[trigger] v@[j]).0.1 as int == j % 3,
                forall|j: int|
                    0 <= j < i as int ==> {
                        let r = (#[trigger] v@[j]).1;
                        &&& r.x == cell_x(self.spec_bounds(), j % 3)
                        &&& r.y == cell_y(self.spec_bounds(), j / 3)
                        &&& r.width == cell_w(self.spec_bounds())
                        &&& r.height == cell_h(self.spec_bounds())
                    },
            decreases 9 - i as int,
        {
            let row = i / 3;
            let col = i % 3;
            let rc = self.bounds.cell_rect(row, col);
            v.push(((row, col), rc));
            i = i + 1;
        }
        v
    }

    /// The nine cells in row-major order: key, rectangle, and current state,
    /// taken from the same board so geometry and state cannot drift apart.
    pub fn iter(&self) -> (v: Vec<((u8, u8), Rect, Option<TileState>)>)
        requires
            geom_fits(self.spec_bounds()),
        ensures
            v@.len() == 9,
            forall|i: int| 0 <= i < 9 ==> (#[trigger] v@[i]).0.0 as int == i / 3,
            forall|i: int| 0 <= i < 9 ==> (#[trigger] v@[i]).0.1 as int == i % 3,
            forall|i: int|
                0 <= i < 9 ==> {
                    let r = (#[trigger] v@[i]).1;
                    &&& r.x == cell_x(self.spec_bounds(), i % 3)
                    &&& r.y == cell_y(self.spec_bounds(), i / 3)
                    &&& r.width == cell_w(self.spec_bounds())
                    &&& r.height == cell_h(self.spec_bounds())
                },
            forall|i: int| 0 <= i < 9 ==> (#[trigger] v@[i]).2 == self.cell_state(i / 3, i % 3),
    {
        let geo = self.bounds_iter();
        let mut v: Vec<((u8, u8), Rect, Option<TileState>)> = Vec::new();
        let mut i: usize = 0;
        while i < 9
            invariant
                geo@.len() == 9,
                forall|j: int| 0 <= j < 9 ==> (#[trigger] geo@[j]).0.0 as int == j / 3,
                forall|j: int| 0 <= j < 9 ==> (#[trigger] geo@[j]).0.1 as int == j % 3,
                forall|j: int|
                    0 <= j < 9 ==> {
                        let r = (#[trigger] geo@[j]).1;
                        &&& r.x == cell_x(self.spec_bounds(), j % 3)
                        &&& r.y == cell_y(self.spec_bounds(), j / 3)
                        &&& r.width == cell_w(self.spec_bounds())
                        &&& r.height == cell_h(self.spec_bounds())
                    },
                i <= 9,
                v@.len() == i as int,
                forall|j: int| 0 <= j < i as int ==> (#[trigger] v@[j]).0 == geo@[j].0,
                forall|j: int| 0 <= j < i as int ==> (#[trigger] v@[j]).1 == geo@[j].1,
                forall|j: int|
                    0 <= j < i as int ==> (#[trigger] v@[j]).2 == self.cell_state(j / 3, j % 3),
            decreases 9 - i as int,
        {
            let ((row, col), rc) = geo[i];
            v.push(((row, col), rc, self.states[row as usize][col as usize]));
            i = i + 1;
        }
        v
    }

    /// The first empty cell, in row-major order, whose rectangle holds the
    /// pointer position `(px, py)` -- the cell a click would mark.
    pub fn hovered_cell(&self, px: i32, py: i32) -> (r: Option<(u8, u8)>)
        requires
            geom_fits(self.spec_bounds()),
        ensures
            self.is_first_hit(px as int, py as int, r),
    {
        let mut i: u8 = 0;
        while i < 9
            invariant
                geom_fits(self.spec_bounds()),
                i <= 9,
                forall|j: int| 0 <= j < i as int ==> !self.hit_at(j, px as int, py as int),
            decreases 9 - i as int,
        {
            let row = i / 3;
            let col = i % 3;
            let rc = self.bounds.cell_rect(row, col);
            if rc.contains(px, py) && self.states[row as usize][col as usize].is_none() {
                return Some((row, col));
            }
            i = i + 1;
        }
        None
    }

    /// The click step of the frame loop: mark the hovered empty cell, if
    /// there is one, and report which cell was marked.
    pub fn click(&mut self, px: i32, py: i32) -> (r: Option<(u8, u8)>)
        requires
            geom_fits(old(self).spec_bounds()),
        ensures
            old(self).is_first_hit(px as int, py as int, r),
            r matches Some(cell) ==> Board::marks(
                *old(self),
                *final(self),
                cell.0 as int,
                cell.1 as int,
            ),
            r is None ==> *final(self) == *old(self),
    {
        let hovered = self.hovered_cell(px, py);
        if let Some((row, col)) = hovered {
            self.mark(row, col);
        }
        hovered
    }
}

} // verus!
