//! Axis-aligned rectangles with integer coordinates, and the derivation
//! of the nine equal cell rectangles that tile a board's bounds.

use vstd::prelude::*;

verus! {

/// An axis-aligned rectangle: origin `(x, y)`, extent `width` x `height`.
#[derive(Clone, Copy, Debug, PartialEq, Eq, Structural)]
pub struct Rect {
    pub x: i32,
    pub y: i32,
    pub width: i32,
    pub height: i32,
}

/// A point lies in a rectangle when it is inside the half-open spans
/// `[x, x + width)` and `[y, y + height)`.
pub open spec fn rect_contains(r: Rect, px: int, py: int) -> bool {
    &&& r.x <= px < r.x + r.width
    &&& r.y <= py < r.y + r.height
}

/// Width of one cell: a third of the bounds' width.
pub open spec fn cell_w(b: Rect) -> int {
    b.width as int / 3
}

/// Height of one cell: a third of the bounds' height.
pub open spec fn cell_h(b: Rect) -> int {
    b.height as int / 3
}

/// Horizontal origin of the cells in column `col`.
pub open spec fn cell_x(b: Rect, col: int) -> int {
    b.x + col * cell_w(b)
}

/// Vertical origin of the cells in row `row`.
pub open spec fn cell_y(b: Rect, row: int) -> int {
    b.y + row * cell_h(b)
}

/// The point `(px, py)` lies in the cell-`(row, col)` sub-rectangle of the
/// bounds `b`.
pub open spec fn cell_contains(b: Rect, row: int, col: int, px: int, py: int) -> bool {
    &&& cell_x(b, col) <= px < cell_x(b, col) + cell_w(b)
    &&& cell_y(b, row) <= py < cell_y(b, row) + cell_h(b)
}

/// The bounds are usable for cell geometry: the extents are not negative
/// and the origin of the last row and column stays within `i32`.
pub open spec fn geom_fits(b: Rect) -> bool {
    &&& b.width >= 0
    &&& b.height >= 0
    &&& b.x + 2 * cell_w(b) <= i32::MAX
    &&& b.y + 2 * cell_h(b) <= i32::MAX
}

impl Rect {
    /// The sub-rectangle of `self` holding cell `(row, col)` of the 3x3 grid:
    /// origin `(x + col * width/3, y + row * height/3)`, extent `width/3 x height/3`.
    pub fn cell_rect(&self, row: u8, col: u8) -> (r: Rect)
        requires
            row < 3,
            col < 3,
            geom_fits(*self),
        ensures
            r.x == cell_x(*self, col as int),
            r.y == cell_y(*self, row as int),
            r.width == cell_w(*self),
            r.height == cell_h(*self),
    {
        let sub_w: i32 = self.width / 3;
        let sub_h: i32 = self.height / 3;
        proof {
            assert(3 * sub_w <= self.width && 3 * sub_h <= self.height);
            assert(col as int * sub_w <= 2 * sub_w && row as int * sub_h <= 2 * sub_h)
                by (nonlinear_arith)
                requires
                    col < 3,
                    row < 3,
                    sub_w >= 0,
                    sub_h >= 0,
            ;
        }
        Rect {
            x: self.x + (col as i32) * sub_w,
            y: self.y + (row as i32) * sub_h,
            width: sub_w,
            height: sub_h,
        }
    }

    /// Whether the point `(px, py)` lies inside this rectangle.
    pub fn contains(&self, px: i32, py: i32) -> (b: bool)
        ensures
            b == rect_contains(*self, px as int, py as int),
    {
        let x64 = self.x as i64;
        let y64 = self.y as i64;
        (px as i64) >= x64 && (px as i64) < x64 + (self.width as i64)
            && (py as i64) >= y64 && (py as i64) < y64 + (self.height as i64)
    }
}

} // verus!
