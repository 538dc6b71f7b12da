//! Laws of the board, stated and proved over the public specifications:
//! the turn counter counts marks and fixes the alternation of players, the
//! nine cell rectangles partition the bounds, hit-testing only ever picks
//! an empty cell, and a full board ignores every further click.

use vstd::prelude::*;
use crate::board::{Board, turn_tile};
use crate::rect::{Rect, rect_contains, cell_contains, cell_w, cell_h, geom_fits};

verus! {

/// Step `i` of a play: the move is in range, its target cell was empty
/// just before, and the two adjacent boards are related by `Board::marks`.
pub open spec fn play_step(boards: Seq<Board>, moves: Seq<(u8, u8)>, i: int) -> bool {
    &&& moves[i].0 < 3
    &&& moves[i].1 < 3
    &&& boards[i].cell_state(moves[i].0 as int, moves[i].1 as int) is None
    &&& Board::marks(boards[i], boards[i + 1], moves[i].0 as int, moves[i].1 as int)
}

/// After `n` steps of a play that starts at turn zero, the turn counter
/// reads `n`.
proof fn lemma_turn_after_prefix(boards: Seq<Board>, moves: Seq<(u8, u8)>, n: int)
    requires
        boards.len() == moves.len() + 1,
        boards[0].spec_turn() == 0,
        forall|i: int| 0 <= i < moves.len() ==> #[trigger] play_step(boards, moves, i),
        0 <= n <= moves.len(),
    ensures
        boards[n].spec_turn() == n,
    decreases n,
{
    if n > 0 {
        lemma_turn_after_prefix(boards, moves, n - 1);
        assert(play_step(boards, moves, n - 1));
    }
}

/// For every sequence of marks applied only to previously-empty cells,
/// the turn counter equals the number of marks applied, and the mark
/// placed by the `n`-th move (counting from zero) is `X` when `n` is even
/// and `O` when `n` is odd.
pub proof fn lemma_turn_counts_marks(boards: Seq<Board>, moves: Seq<(u8, u8)>)
    requires
        boards.len() == moves.len() + 1,
        boards[0].spec_turn() == 0,
        forall|i: int| 0 <= i < moves.len() ==> #[trigger] play_step(boards, moves, i),
    ensures
        boards[moves.len() as int].spec_turn() == moves.len(),
        forall|n: int|
            0 <= n < moves.len()
                ==> boards[n + 1].cell_state(moves[n].0 as int, moves[n].1 as int)
                    == Some(turn_tile(n)),
{
    lemma_turn_after_prefix(boards, moves, moves.len() as int);
    assert forall|n: int| 0 <= n < moves.len() implies boards[n + 1].cell_state(
        moves[n].0 as int,
        moves[n].1 as int,
    ) == Some(turn_tile(n)) by {
        lemma_turn_after_prefix(boards, moves, n);
        assert(play_step(boards, moves, n));
    }
}

/// The point `p` lies in the `k`-th third of the span that starts at `s`
/// and is cut into pieces of extent `sub`.
spec fn in_third(s: int, sub: int, k: int, p: int) -> bool {
    s + k * sub <= p < s + (k + 1) * sub
}

/// A point is inside the `k`-th third of the span `[s, s + 3*sub)` for
/// exactly one `k` in `{0, 1, 2}` -- and for none when it is outside the
/// span.
proof fn lemma_span_thirds(s: int, sub: int, p: int)
    requires
        sub >= 0,
    ensures
        (s <= p < s + 3 * sub) <==> exists|k: int| 0 <= k < 3 && #[trigger] in_third(s, sub, k, p),
        forall|k1: int, k2: int|
            0 <= k1 < 3 && 0 <= k2 < 3 && #[trigger] in_third(s, sub, k1, p) && #[trigger] in_third(
                s,
                sub,
                k2,
                p,
            ) ==> k1 == k2,
{
    if s <= p < s + 3 * sub {
        let k: int = if p < s + sub {
            0
        } else if p < s + 2 * sub {
            1
        } else {
            2
        };
        assert(in_third(s, sub, k, p));
    }
    if exists|k: int| 0 <= k < 3 && #[trigger] in_third(s, sub, k, p) {
        let k = choose|k: int| 0 <= k < 3 && #[trigger] in_third(s, sub, k, p);
        assert(k * sub >= 0 && (k + 1) * sub <= 3 * sub) by (nonlinear_arith)
            requires
                0 <= k < 3,
                sub >= 0,
        ;
    }
    assert forall|k1: int, k2: int|
        0 <= k1 < 3 && 0 <= k2 < 3 && #[trigger] in_third(s, sub, k1, p) && #[trigger] in_third(
            s,
            sub,
            k2,
            p,
        ) implies k1 == k2 by {
        if k1 < k2 {
            assert((k1 + 1) * sub <= k2 * sub) by (nonlinear_arith)
                requires
                    k1 + 1 <= k2,
                    sub >= 0,
            ;
        }
        if k2 < k1 {
            assert((k2 + 1) * sub <= k1 * sub) by (nonlinear_arith)
                requires
                    k2 + 1 <= k1,
                    sub >= 0,
            ;
        }
    }
}

/// When the extents of the bounds are multiples of three, the nine cell
/// rectangles partition the bounds: every point of the bounds lies in
/// exactly one cell rectangle, and points outside the bounds in none.
pub proof fn lemma_cells_partition(b: Rect, px: int, py: int)
    requires
        geom_fits(b),
        b.width % 3 == 0,
        b.height % 3 == 0,
    ensures
        rect_contains(b, px, py) <==> exists|r: int, c: int|
            0 <= r < 3 && 0 <= c < 3 && cell_contains(b, r, c, px, py),
        forall|r1: int, c1: int, r2: int, c2: int|
            0 <= r1 < 3 && 0 <= c1 < 3 && 0 <= r2 < 3 && 0 <= c2 < 3 && cell_contains(
                b,
                r1,
                c1,
                px,
                py,
            ) && cell_contains(b, r2, c2, px, py) ==> r1 == r2 && c1 == c2,
{
    assert(b.width == 3 * cell_w(b) && b.height == 3 * cell_h(b));
    lemma_span_thirds(b.x as int, cell_w(b), px);
    lemma_span_thirds(b.y as int, cell_h(b), py);
    assert forall|r: int, c: int|
        0 <= r < 3 && 0 <= c < 3 implies #[trigger] cell_contains(b, r, c, px, py) == (in_third(
        b.x as int,
        cell_w(b),
        c,
        px,
    ) && in_third(b.y as int, cell_h(b), r, py)) by {
        assert((c + 1) * cell_w(b) == c * cell_w(b) + cell_w(b)) by (nonlinear_arith);
        assert((r + 1) * cell_h(b) == r * cell_h(b) + cell_h(b)) by (nonlinear_arith);
    }
    if rect_contains(b, px, py) {
        let c = choose|k: int| 0 <= k < 3 && #[trigger] in_third(b.x as int, cell_w(b), k, px);
        let r = choose|k: int| 0 <= k < 3 && #[trigger] in_third(b.y as int, cell_h(b), k, py);
        assert(cell_contains(b, r, c, px, py));
    }
    if exists|r: int, c: int| 0 <= r < 3 && 0 <= c < 3 && #[trigger] cell_contains(b, r, c, px, py) {
        let (r, c) = choose|r: int, c: int|
            0 <= r < 3 && 0 <= c < 3 && #[trigger] cell_contains(b, r, c, px, py);
        assert(in_third(b.x as int, cell_w(b), c, px));
        assert(in_third(b.y as int, cell_h(b), r, py));
        assert(rect_contains(b, px, py));
    }
}

/// The nine equal cell rectangles account together for exactly the area
/// of the bounds, when its extents are multiples of three.
pub proof fn lemma_cells_area(b: Rect)
    requires
        geom_fits(b),
        b.width % 3 == 0,
        b.height % 3 == 0,
    ensures
        9 * cell_w(b) * cell_h(b) == b.width * b.height,
{
    assert(b.width == 3 * cell_w(b) && b.height == 3 * cell_h(b));
    assert(9 * cell_w(b) * cell_h(b) == (3 * cell_w(b)) * (3 * cell_h(b))) by (nonlinear_arith);
}

/// Hit-testing never selects a cell whose state is not empty.
pub proof fn lemma_hover_selects_empty(b: Board, px: int, py: int, r: Option<(u8, u8)>)
    requires
        b.is_first_hit(px, py, r),
    ensures
        r matches Some(cell) ==> b.cell_state(cell.0 as int, cell.1 as int) is None,
{
    if let Some(cell) = r {
        let i = cell.0 as int * 3 + cell.1 as int;
        assert(i / 3 == cell.0 as int && i % 3 == cell.1 as int);
    }
}

/// On a board whose nine cells are all marked, no cell qualifies as a
/// hit any more, so hit-testing returns no hovered cell; together with
/// the contract of `Board::click` (no hovered cell means the board is
/// returned unchanged), further presses produce no state change.
pub proof fn lemma_full_board_ignores_clicks(b: Board, px: int, py: int, r: Option<(u8, u8)>)
    requires
        forall|row: int, col: int|
            0 <= row < 3 && 0 <= col < 3 ==> (#[trigger] b.cell_state(row, col)) is Some,
        b.is_first_hit(px, py, r),
    ensures
        forall|j: int| 0 <= j < 9 ==> !b.hit_at(j, px, py),
        r is None,
{
    assert forall|j: int| 0 <= j < 9 implies !b.hit_at(j, px, py) by {
        assert(0 <= j / 3 < 3 && 0 <= j % 3 < 3);
        assert(b.cell_state(j / 3, j % 3) is Some);
    }
    if let Some(cell) = r {
        let i = cell.0 as int * 3 + cell.1 as int;
        assert(0 <= i < 9);
        assert(!b.hit_at(i, px, py));
    }
}

} // verus!
