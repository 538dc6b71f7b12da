use tic_tac_toe::board::{fill_color, Board, CellColor, TileState};
use tic_tac_toe::rect::Rect;

fn full_bounds() -> Rect {
    Rect { x: 0, y: 0, width: 720, height: 720 }
}

#[test]
fn geometry_of_720_bounds() {
    let board = Board::new(full_bounds());
    let cells = board.bounds_iter();
    assert_eq!(cells.len(), 9);
    let (key0, rect0) = cells[0];
    assert_eq!(key0, (0, 0));
    assert_eq!(rect0, Rect { x: 0, y: 0, width: 240, height: 240 });
    let (key5, rect5) = cells[5];
    assert_eq!(key5, (1, 2));
    assert_eq!(rect5, Rect { x: 480, y: 240, width: 240, height: 240 });
}

#[test]
fn enumeration_is_row_major() {
    let board = Board::new(full_bounds());
    let cells = board.iter();
    assert_eq!(cells.len(), 9);
    let mut i = 0u8;
    for (key, _, state) in cells {
        assert_eq!(key, (i / 3, i % 3));
        assert_eq!(state, None);
        i += 1;
    }
}

#[test]
fn enumeration_of_zero_area_bounds() {
    let board = Board::new(Rect { x: 5, y: 5, width: 0, height: 0 });
    let cells = board.bounds_iter();
    assert_eq!(cells.len(), 9);
    let mut i = 0u8;
    for (key, rect) in cells {
        assert_eq!(key, (i / 3, i % 3));
        assert_eq!(rect, Rect { x: 5, y: 5, width: 0, height: 0 });
        i += 1;
    }
}

#[test]
fn geometry_fits_on_usual_and_degenerate_bounds() {
    assert!(Board::new(full_bounds()).geometry_fits());
    assert!(Board::new(Rect { x: 5, y: 5, width: 0, height: 0 }).geometry_fits());
    assert!(!Board::new(Rect { x: 0, y: 0, width: -3, height: 720 }).geometry_fits());
    assert!(!Board::new(Rect { x: i32::MAX, y: 0, width: 720, height: 720 }).geometry_fits());
}

#[test]
fn marks_alternate_and_count_turns() {
    let mut board = Board::new(full_bounds());
    assert_eq!(board.turn(), 0);
    board.mark(0, 0);
    board.mark(1, 1);
    board.mark(2, 2);
    assert_eq!(board.turn(), 3);
    let cells = board.iter();
    assert_eq!(cells[0].2, Some(TileState::X));
    assert_eq!(cells[4].2, Some(TileState::O));
    assert_eq!(cells[8].2, Some(TileState::X));
    assert_eq!(cells[1].2, None);
}

#[test]
fn hover_finds_first_empty_cell() {
    let mut board = Board::new(full_bounds());
    assert_eq!(board.hovered_cell(100, 100), Some((0, 0)));
    assert_eq!(board.hovered_cell(500, 300), Some((1, 2)));
    board.mark(0, 0);
    assert_eq!(board.hovered_cell(100, 100), None);
}

#[test]
fn hover_respects_cell_edges() {
    let board = Board::new(full_bounds());
    assert_eq!(board.hovered_cell(239, 100), Some((0, 0)));
    assert_eq!(board.hovered_cell(240, 100), Some((0, 1)));
    assert_eq!(board.hovered_cell(100, 240), Some((1, 0)));
    assert_eq!(board.hovered_cell(719, 719), Some((2, 2)));
    assert_eq!(board.hovered_cell(720, 719), None);
}

#[test]
fn hover_outside_bounds_finds_nothing() {
    let board = Board::new(full_bounds());
    assert_eq!(board.hovered_cell(-1, 100), None);
    assert_eq!(board.hovered_cell(100, -1), None);
    assert_eq!(board.hovered_cell(100000, 100), None);
}

#[test]
fn click_marks_the_hovered_cell() {
    let mut board = Board::new(full_bounds());
    assert_eq!(board.click(500, 300), Some((1, 2)));
    assert_eq!(board.turn(), 1);
    let cells = board.iter();
    assert_eq!(cells[5].2, Some(TileState::X));
    assert_eq!(board.click(500, 300), None);
    assert_eq!(board.turn(), 1);
}

#[test]
fn click_outside_changes_nothing() {
    let mut board = Board::new(full_bounds());
    assert_eq!(board.click(-10, -10), None);
    assert_eq!(board.turn(), 0);
    for (_, _, state) in board.iter() {
        assert_eq!(state, None);
    }
}

#[test]
fn full_board_ignores_further_clicks() {
    let mut board = Board::new(full_bounds());
    for row in 0..3u8 {
        for col in 0..3u8 {
            let px = col as i32 * 240 + 120;
            let py = row as i32 * 240 + 120;
            assert_eq!(board.click(px, py), Some((row, col)));
        }
    }
    assert_eq!(board.turn(), 9);
    assert_eq!(board.hovered_cell(100, 100), None);
    for row in 0..3u8 {
        for col in 0..3u8 {
            let px = col as i32 * 240 + 120;
            let py = row as i32 * 240 + 120;
            assert_eq!(board.click(px, py), None);
        }
    }
    assert_eq!(board.turn(), 9);
    let cells = board.iter();
    for (i, (_, _, state)) in cells.into_iter().enumerate() {
        let expected = if i % 2 == 0 { TileState::X } else { TileState::O };
        assert_eq!(state, Some(expected));
    }
}

#[test]
fn fill_colors_by_state() {
    assert_eq!(fill_color(&None), CellColor::Neutral);
    assert_eq!(fill_color(&Some(TileState::X)), CellColor::PlayerX);
    assert_eq!(fill_color(&Some(TileState::O)), CellColor::PlayerO);
}

#[test]
fn geometry_of_offset_bounds() {
    let board = Board::new(Rect { x: 30, y: 60, width: 90, height: 150 });
    let cells = board.bounds_iter();
    let (key, rect) = cells[7];
    assert_eq!(key, (2, 1));
    assert_eq!(rect, Rect { x: 60, y: 160, width: 30, height: 50 });
}
