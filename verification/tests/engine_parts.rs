//! The small engine-side value types and the texture atlas packer.

use tetris_core::actor::player::{KeyState, Player};
use tetris_core::actor::Action;
use tetris_core::conf::WindowSetup;
use tetris_core::mint::Point2;
use tetris_core::state::StateID;
use tetris_core::text::{Font, Scale, Text, TextFragment};
use tetris_core::texture_packer::TexturePacker;
use tetris_core::vec::Vec2;

#[test]
fn vec2_and_point2_carry_their_components() {
    let v = Vec2::new(3i32, -4i32);
    assert_eq!(v.x, 3);
    assert_eq!(v.y, -4);
    let p = Point2::new(7u32, 9u32);
    assert_eq!(p.x, 7);
    assert_eq!(p.y, 9);
}

#[test]
fn window_setup_builder_replaces_fields() {
    let ws = WindowSetup { title: String::new(), icon: None };
    let ws = ws.title("Tetris").icon("/icon.png");
    assert_eq!(ws.title, "Tetris");
    assert_eq!(ws.icon.as_deref(), Some("/icon.png"));
}

#[test]
fn text_keeps_fragment_and_takes_a_font() {
    let mut label = Text::new(TextFragment::new(String::from("SCORE")));
    assert!(label.font.is_none());
    let font = Font { id: 2, scale: Scale { y: 16 } };
    label.set_font(font, Scale { y: 24 });
    let chosen = label.font.unwrap();
    assert_eq!(chosen.id, 2);
    assert_eq!(chosen.scale.y, 24);
    assert_eq!(label.fragment.text, "SCORE");
}

#[test]
fn state_ids_distinguish_screens() {
    assert!(StateID::Game != StateID::Menu);
}

#[test]
fn player_bindings_and_debounce() {
    let mut p = Player::new();
    assert!(!p.check(Action::MoveLeft));
    let mut keys = KeyState::none();
    keys.left = true;
    keys.x = true;
    p.set_keys(keys);
    assert!(p.check(Action::MoveLeft));
    assert!(p.check(Action::RotateRight));
    assert!(!p.check(Action::HardDrop));
    assert!(!p.check(Action::Drop));
    // after the end-of-tick refresh, the held rotation no longer fires,
    // while the level-sensitive move still does
    p.update();
    assert!(p.check(Action::MoveLeft));
    assert!(!p.check(Action::RotateRight));
}

#[test]
fn packer_places_and_copies_rectangles() {
    let mut packer = TexturePacker::new();
    assert_eq!(packer.size().x, 512);
    assert_eq!(packer.size().y, 512);
    let a = vec![1u8; 16 * 8];
    let origin_a = packer.pack(&a, Vec2::new(16, 8)).unwrap();
    let b = vec![2u8; 4 * 4];
    let origin_b = packer.pack(&b, Vec2::new(4, 4)).unwrap();
    // the two rectangles do not overlap
    let disjoint_x = origin_a.x + 16 <= origin_b.x || origin_b.x + 4 <= origin_a.x;
    let disjoint_y = origin_a.y + 8 <= origin_b.y || origin_b.y + 4 <= origin_a.y;
    assert!(disjoint_x || disjoint_y);
    let data = packer.data();
    assert_eq!(data.len(), 512 * 512);
    for dy in 0..8u32 {
        for dx in 0..16u32 {
            let idx = ((origin_a.y + dy) * 512 + origin_a.x + dx) as usize;
            assert_eq!(data[idx], 1);
        }
    }
    for dy in 0..4u32 {
        for dx in 0..4u32 {
            let idx = ((origin_b.y + dy) * 512 + origin_b.x + dx) as usize;
            assert_eq!(data[idx], 2);
        }
    }
}

#[test]
fn packer_reports_exhaustion() {
    let mut packer = TexturePacker::new();
    let big = vec![9u8; 512 * 512];
    assert!(packer.pack(&big, Vec2::new(512, 512)).is_some());
    let more = vec![1u8; 4];
    assert!(packer.pack(&more, Vec2::new(2, 2)).is_none());
}
