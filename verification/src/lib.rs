//! A verified model of a 3x3 tic-tac-toe board: cell states, turn
//! alternation, cell geometry derived from a bounding rectangle, and
//! mouse hit-testing. Rendering and input polling live outside the
//! library; everything here is pure logic with proved contracts.

pub mod board;
pub mod laws;
pub mod rect;
