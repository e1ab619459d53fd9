//! Piece generator behaviour.

use tetris_core::random::{
    create, nes_first, nes_reroll, PieceGen, RandomGenerator, RandomGeneratorType,
};
use tetris_core::tetrimino::TileType;

fn kind_index(k: TileType) -> usize {
    match k {
        TileType::I => 0,
        TileType::O => 1,
        TileType::T => 2,
        TileType::S => 3,
        TileType::Z => 4,
        TileType::J => 5,
        TileType::L => 6,
        TileType::Empty => 7,
    }
}

#[test]
fn bag_deals_every_kind_twice_in_fourteen_draws() {
    let seed = [7u8; 32];
    let mut gen: PieceGen = create(seed, RandomGeneratorType::RandomBag);
    let mut counts = [0usize; 8];
    for _ in 0..14 {
        let k = gen.next();
        counts[kind_index(k)] += 1;
    }
    for i in 0..7 {
        assert_eq!(counts[i], 2);
    }
    assert_eq!(counts[7], 0);
}

#[test]
fn bag_fairness_holds_for_many_seeds() {
    for s in 0..20u8 {
        let mut seed = [0u8; 32];
        seed[0] = s;
        seed[31] = s.wrapping_mul(37);
        let mut gen = create(seed, RandomGeneratorType::RandomBag);
        let mut counts = [0usize; 8];
        for _ in 0..14 {
            counts[kind_index(gen.next())] += 1;
        }
        for i in 0..7 {
            assert_eq!(counts[i], 2);
        }
    }
}

#[test]
fn nes_generator_never_deals_empty() {
    let seed = [42u8; 32];
    let mut gen = create(seed, RandomGeneratorType::RandomNES);
    for _ in 0..200 {
        let k = gen.next();
        assert!(k != TileType::Empty);
    }
}

#[test]
fn nes_first_draw_suppresses_repeats_and_the_invalid_slot() {
    // The first of the two draws never hands back the previous kind or
    // the invalid eighth bucket; those force the single redraw.
    for last_i in 0..7usize {
        let last = TileType::from_usize(last_i);
        for v in 0..32u32 {
            match nes_first(last, v) {
                Some(k) => {
                    assert!(k != TileType::Empty);
                    assert!(k != last);
                    assert!(kind_index(k) == (v as usize) % 8);
                }
                None => {
                    let bucket = (v as usize) % 8;
                    assert!(bucket == 7 || bucket == last_i);
                }
            }
        }
    }
}

#[test]
fn nes_reroll_covers_exactly_the_seven_kinds() {
    for v in 0..21u32 {
        let k = nes_reroll(v);
        assert!(k != TileType::Empty);
        assert!(kind_index(k) == (v as usize) % 7);
    }
}

#[test]
fn generator_type_selects_the_policy() {
    let seed = [1u8; 32];
    let bag = create(seed, RandomGeneratorType::RandomBag);
    let nes = create(seed, RandomGeneratorType::RandomNES);
    assert!(matches!(bag, PieceGen::Bag(_)));
    assert!(matches!(nes, PieceGen::Nes(_)));
}
