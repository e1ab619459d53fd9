//! Board scanning and compaction behaviour.

use tetris_core::board::{Board, CompleteLines};
use tetris_core::tetrimino::{Tetrimino, TileType};
use tetris_core::vec::Vec2;

#[test]
fn empty_board_scan_finds_nothing() {
    let map = Board::new();
    let lines = map.complete_lines();
    assert!(lines.is_empty());
    assert_eq!(lines.len(), 0);
}

#[test]
fn clear_with_no_lines_is_a_noop() {
    let mut map = Board::new();
    map.set(3, 21, TileType::L);
    map.set(7, 10, TileType::I);
    let lines = CompleteLines::new();
    map.clear(&lines);
    assert!(map.get(3, 21) == TileType::L);
    assert!(map.get(7, 10) == TileType::I);
    assert!(map.get(0, 0) == TileType::Empty);
}

#[test]
fn scan_reports_full_rows_bottom_first_with_sentinel() {
    let mut map = Board::new();
    for x in 0..10 {
        map.set(x, 21, TileType::S);
        map.set(x, 19, TileType::Z);
    }
    let lines = map.complete_lines();
    assert_eq!(lines.len(), 2);
    assert_eq!(lines.index(0), 21);
    assert_eq!(lines.index(1), 19);
    assert_eq!(lines.index(2), 0);
}

#[test]
fn end_to_end_bottom_row_clears_and_shifts() {
    // Bottom row full except column 9; an O piece fills columns 8 and 9 of
    // the bottom two rows; the bottom row completes, and after compaction
    // everything above has moved down one row.
    let mut map = Board::new();
    for x in 0..9 {
        map.set(x, 21, TileType::J);
    }
    let mut o = Tetrimino::new(TileType::O);
    o.pos = Vec2::new(17, 41);
    map.apply(&o);
    assert!(map.get(8, 20) == TileType::O);
    assert!(map.get(9, 21) == TileType::O);
    let lines = map.complete_lines();
    assert_eq!(lines.len(), 1);
    assert_eq!(lines.index(0), 21);
    map.clear(&lines);
    // the two O cells of row 20 moved down into row 21
    assert!(map.get(8, 21) == TileType::O);
    assert!(map.get(9, 21) == TileType::O);
    assert!(map.get(0, 21) == TileType::Empty);
    for x in 0..10 {
        assert!(map.get(x, 20) == TileType::Empty);
        assert!(map.get(x, 0) == TileType::Empty);
    }
}

#[test]
fn collision_sees_walls_floor_and_stones() {
    let mut map = Board::new();
    let mut t = Tetrimino::new(TileType::T);
    assert!(!map.collision(&t));
    // off the left wall
    t.pos = Vec2::new(-2, 2);
    assert!(map.collision(&t));
    // below the floor
    t.pos = Vec2::new(8, 44);
    assert!(map.collision(&t));
    // onto a stone
    t.pos = Vec2::new(8, 2);
    map.set(4, 1, TileType::I);
    assert!(map.collision(&t));
}

#[test]
fn double_line_clear_shifts_the_row_between() {
    // Rows 19 and 21 full, row 20 carries a marker: after compaction the
    // marker sits on the bottom row and the top two rows are empty.
    let mut map = Board::new();
    for x in 0..10 {
        map.set(x, 19, TileType::S);
        map.set(x, 21, TileType::Z);
    }
    map.set(4, 20, TileType::T);
    let lines = map.complete_lines();
    assert_eq!(lines.len(), 2);
    map.clear(&lines);
    assert!(map.get(4, 21) == TileType::T);
    assert!(map.get(3, 21) == TileType::Empty);
    for x in 0..10 {
        assert!(map.get(x, 0) == TileType::Empty);
        assert!(map.get(x, 1) == TileType::Empty);
        assert!(map.get(x, 19) == TileType::Empty);
        assert!(map.get(x, 20) == TileType::Empty);
    }
}
