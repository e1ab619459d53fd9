//! Piece movement and rotation behaviour.

use tetris_core::board::Board;
use tetris_core::tetrimino::{Orientation, Tetrimino, TileType};
use tetris_core::vec::Vec2;

fn kinds() -> Vec<TileType> {
    vec![
        TileType::I,
        TileType::O,
        TileType::T,
        TileType::S,
        TileType::Z,
        TileType::J,
        TileType::L,
    ]
}

#[test]
fn rotation_totality_four_turns_restore_piece() {
    let map = Board::new();
    for &kind in kinds().iter() {
        if kind == TileType::O {
            continue;
        }
        for &right in [false, true].iter() {
            let mut t = Tetrimino::new(kind);
            // keep the piece clear of the spawn buffer ceiling while it turns
            assert!(t.mov(&map, 0, 8));
            let before = t;
            for _ in 0..4 {
                assert!(t.rotate(true, &map, right));
            }
            assert_eq!(t.pos.x, before.pos.x);
            assert_eq!(t.pos.y, before.pos.y);
            for i in 0..4 {
                assert_eq!(t.tiles[i].x, before.tiles[i].x);
                assert_eq!(t.tiles[i].y, before.tiles[i].y);
            }
            assert!(t.orientation == before.orientation);
        }
    }
}

#[test]
fn o_piece_never_rotates() {
    let map = Board::new();
    for &kicks in [false, true].iter() {
        for &right in [false, true].iter() {
            let mut t = Tetrimino::new(TileType::O);
            let before = t;
            assert!(t.rotate(kicks, &map, right));
            assert_eq!(t.pos.x, before.pos.x);
            assert_eq!(t.pos.y, before.pos.y);
            for i in 0..4 {
                assert_eq!(t.tiles[i].x, before.tiles[i].x);
                assert_eq!(t.tiles[i].y, before.tiles[i].y);
            }
            assert!(t.orientation == before.orientation);
        }
    }
}

#[test]
fn try_move_commits_or_rolls_back() {
    let map = Board::new();
    let mut t = Tetrimino::new(TileType::T);
    let x0 = t.pos.x;
    let y0 = t.pos.y;
    // a free move commits in full
    assert!(t.mov(&map, 2, 0));
    assert_eq!(t.pos.x, x0 + 2);
    assert_eq!(t.pos.y, y0);
    // T spawns with cells on columns 3..=5; after one step right, at 4..=6.
    // Eleven more steps right would leave the board: the move is refused
    // and the position is exactly as before the call.
    let mut bumps = 0;
    for _ in 0..11 {
        if !t.mov(&map, 2, 0) {
            bumps += 1;
        }
    }
    assert!(bumps > 0);
    let x_wall = t.pos.x;
    assert!(!t.mov(&map, 2, 0));
    assert_eq!(t.pos.x, x_wall);
    assert_eq!(t.pos.y, y0);
}

#[test]
fn wall_kick_resolution_takes_first_fitting_offset() {
    // A T piece against the left wall, low on the board, in Deg0.
    let mut map = Board::new();
    let mut t = Tetrimino::new(TileType::T);
    t.pos = Vec2::new(2, 40);
    // The unshifted clockwise candidate occupies column 1 rows 19..=21 and
    // column 2 row 20.  A stone at (1, 21) blocks it, so the rotation must
    // fall through to the second table entry, a one-cell shift left.
    map.set(1, 21, TileType::J);
    assert!(t.rotate(true, &map, true));
    assert_eq!(t.pos.x, 0);
    assert_eq!(t.pos.y, 40);
    assert!(t.orientation == Orientation::Deg90);
}

#[test]
fn rotation_without_kicks_fails_where_candidate_collides() {
    let mut map = Board::new();
    let mut t = Tetrimino::new(TileType::T);
    t.pos = Vec2::new(2, 40);
    map.set(1, 21, TileType::J);
    let before = t;
    assert!(!t.rotate(false, &map, true));
    assert_eq!(t.pos.x, before.pos.x);
    assert_eq!(t.pos.y, before.pos.y);
    assert!(t.orientation == Orientation::Deg0);
}

#[test]
fn from_usize_maps_the_seven_kinds() {
    assert!(TileType::from_usize(0) == TileType::I);
    assert!(TileType::from_usize(1) == TileType::O);
    assert!(TileType::from_usize(2) == TileType::T);
    assert!(TileType::from_usize(3) == TileType::S);
    assert!(TileType::from_usize(4) == TileType::Z);
    assert!(TileType::from_usize(5) == TileType::J);
    assert!(TileType::from_usize(6) == TileType::L);
    assert!(TileType::from_usize(7) == TileType::Empty);
    assert!(TileType::from_usize(100) == TileType::Empty);
}
