//! The round state machine: scoring, gravity, input auto-repeat, locking.

use tetris_core::game::GameInstance;
use tetris_core::random::RandomGeneratorType;
use tetris_core::settings::Config;
use tetris_core::tetrimino::TileType;

fn config(start_level: usize) -> Config {
    Config {
        random_generator: RandomGeneratorType::RandomBag,
        start_level,
        wall_kicks_enabled: true,
        hard_drop_enabled: true,
    }
}

fn fresh(start_level: usize) -> GameInstance {
    GameInstance::new(config(start_level), [3u8; 32])
}

#[test]
fn fresh_bag_round_opens_with_two_different_kinds() {
    // the first two pieces are the first two draws of one bag, so their
    // kinds can never coincide
    for s in 0..16u8 {
        let mut seed = [s; 32];
        seed[0] = s.wrapping_mul(11);
        let inst = GameInstance::new(config(0), seed);
        assert!(inst.current.tile_type != inst.next.tile_type);
    }
}

#[test]
fn reset_draws_from_the_new_seed_generator() {
    let mut inst = fresh(0);
    inst.reset(config(0), [200u8; 32]);
    assert!(inst.current.tile_type != inst.next.tile_type);
}

#[test]
fn scoring_single_lines_at_level_zero() {
    let expected = [40usize, 100, 300, 1200];
    for n in 1..=4usize {
        let mut inst = fresh(0);
        let before = inst.score;
        inst.update_score(n);
        assert_eq!(inst.score - before, expected[n - 1]);
        assert_eq!(inst.lines, n);
        assert_eq!(inst.level, 0);
    }
}

#[test]
fn scoring_tetris_at_level_five() {
    let mut inst = fresh(0);
    inst.level = 5;
    inst.line_counter = 50;
    let before = inst.score;
    inst.update_score(4);
    assert_eq!(inst.score - before, 7200);
    assert_eq!(inst.level, 5);
}

#[test]
fn level_up_when_line_counter_runs_out() {
    let mut inst = fresh(0);
    // a fresh level-0 round owes ten lines before the first level-up
    assert_eq!(inst.line_counter, 10);
    inst.line_counter = 2;
    inst.update_score(4);
    assert_eq!(inst.level, 1);
    assert_eq!(inst.line_counter, 8);
    // the score used the incremented level
    assert_eq!(inst.score, 1200 * 2);
}

#[test]
fn gravity_value_follows_the_console_curve() {
    assert_eq!(GameInstance::gravity_value(0), 48);
    assert_eq!(GameInstance::gravity_value(1), 43);
    assert_eq!(GameInstance::gravity_value(8), 8);
    assert_eq!(GameInstance::gravity_value(9), 6);
    assert_eq!(GameInstance::gravity_value(10), 5);
    assert_eq!(GameInstance::gravity_value(13), 4);
    assert_eq!(GameInstance::gravity_value(16), 3);
    assert_eq!(GameInstance::gravity_value(19), 2);
    assert_eq!(GameInstance::gravity_value(28), 2);
    assert_eq!(GameInstance::gravity_value(29), 1);
    assert_eq!(GameInstance::gravity_value(1000), 1);
}

#[test]
fn line_counter_start_values() {
    assert_eq!(GameInstance::line_counter(0), 10);
    assert_eq!(GameInstance::line_counter(5), 60);
    assert_eq!(GameInstance::line_counter(9), 100);
    assert_eq!(GameInstance::line_counter(15), 100);
    assert_eq!(GameInstance::line_counter(16), 110);
    assert_eq!(GameInstance::line_counter(20), 150);
}

#[test]
fn gravity_ticks_down_and_drops_the_piece() {
    let mut inst = fresh(0);
    let y0 = inst.current.pos.y;
    // 48 countdown ticks, then the 49th fires the drop
    for _ in 0..49 {
        inst.update();
    }
    assert_eq!(inst.current.pos.y, y0 + 2);
    assert_eq!(inst.drop_timer, Some(48));
}

#[test]
fn soft_drop_halves_the_countdown() {
    let mut inst = fresh(0);
    inst.actor.keys.down = true;
    inst.input();
    assert!(inst.soft_drop);
    inst.update();
    assert_eq!(inst.drop_timer, Some(46));
}

#[test]
fn das_moves_once_then_repeats_every_six_ticks() {
    let mut inst = fresh(0);
    let x0 = inst.current.pos.x;
    inst.actor.keys.left = true;
    // fresh press: immediate move, 16-tick timer armed
    inst.input();
    assert_eq!(inst.current.pos.x, x0 - 2);
    assert_eq!(inst.left_timer, Some(16));
    // sixteen held ticks count the timer down to zero
    for _ in 0..16 {
        inst.input();
    }
    assert_eq!(inst.left_timer, Some(0));
    assert_eq!(inst.current.pos.x, x0 - 2);
    // the next held tick fires the repeat and rearms to six
    inst.input();
    assert_eq!(inst.current.pos.x, x0 - 4);
    assert_eq!(inst.left_timer, Some(6));
    // releasing disarms
    inst.actor.keys.left = false;
    inst.input();
    assert_eq!(inst.left_timer, None);
}

#[test]
fn hard_drop_sends_the_piece_to_the_floor() {
    let mut inst = fresh(0);
    inst.actor.keys.space = true;
    inst.input();
    // one more cell down must collide now
    let mut probe = inst.current;
    assert!(!inst.map.collision(&probe));
    assert!(!probe.mov(&inst.map, 0, 2));
    // the piece rests on the bottom row
    let mut lowest = 0;
    for i in 0..4 {
        let row = (probe.pos.y + probe.tiles[i].y) / 2;
        if row > lowest {
            lowest = row;
        }
    }
    assert_eq!(lowest, 21);
}

#[test]
fn hard_drop_disabled_is_a_noop() {
    let mut cfg = config(0);
    cfg.hard_drop_enabled = false;
    let mut inst = GameInstance::new(cfg, [3u8; 32]);
    let y0 = inst.current.pos.y;
    inst.actor.keys.space = true;
    inst.input();
    assert_eq!(inst.current.pos.y, y0);
}

#[test]
fn rotation_keys_are_edge_triggered() {
    let mut inst = fresh(0);
    // make room so the spawn rotation is free
    for _ in 0..5 {
        inst.current.mov(&inst.map, 0, 2);
    }
    let o0 = inst.current.orientation;
    inst.actor.keys.x = true;
    inst.input();
    inst.update();
    let o1 = inst.current.orientation;
    assert!(o1 != o0 || inst.current.tile_type == TileType::O);
    // held across the next tick: the debounce suppresses a second turn
    inst.input();
    inst.update();
    assert!(inst.current.orientation == o1 || inst.current.tile_type == TileType::O);
}

#[test]
fn lock_starts_spawn_delay_and_spawns_the_lookahead() {
    let mut inst = fresh(0);
    inst.actor.keys.space = true;
    inst.input();
    inst.actor.keys.space = false;
    // drain the gravity timer so the landed piece locks
    for _ in 0..49 {
        inst.update();
    }
    assert!(inst.drop_timer.is_none());
    // the lock armed the 10-tick spawn delay (no lines were completed);
    // the same tick's delay phase already counted it down once
    assert_eq!(inst.spawn_delay_timer, Some(9));
    let next_kind = inst.next.tile_type;
    for _ in 0..10 {
        inst.update();
    }
    assert!(inst.spawn_delay_timer.is_none());
    assert!(inst.current.tile_type == next_kind);
    assert_eq!(inst.drop_timer, Some(48));
}

#[test]
fn full_bottom_row_scores_and_compacts_through_ticks() {
    let mut inst = fresh(0);
    // pre-fill the bottom row except where an I piece will land flat
    for x in 0..6 {
        inst.map.set(x, 21, TileType::J);
    }
    // force the falling piece to be an I lying on columns 6..=9
    inst.current = tetris_core::tetrimino::Tetrimino::new(TileType::I);
    inst.current.pos = tetris_core::vec::Vec2::new(15, 43);
    let score0 = inst.score;
    // drain gravity: the piece cannot fall, so it locks
    for _ in 0..49 {
        inst.update();
    }
    assert_eq!(inst.score, score0 + 40);
    assert_eq!(inst.lines, 1);
    // the 20-tick squeeze runs, then compaction
    assert!(inst.animation_timer.is_some());
    for _ in 0..21 {
        inst.update();
    }
    assert!(inst.animation_timer.is_none());
    for x in 0..10 {
        assert!(inst.map.get(x, 21) == TileType::Empty);
    }
}

#[test]
fn reset_returns_to_the_start_state() {
    let mut inst = fresh(0);
    for _ in 0..60 {
        inst.input();
        inst.update();
    }
    inst.reset(config(2), [9u8; 32]);
    assert_eq!(inst.score, 0);
    assert_eq!(inst.lines, 0);
    assert_eq!(inst.level, 2);
    assert!(!inst.gameover);
    assert_eq!(inst.drop_timer, Some(38));
    for x in 0..10 {
        for y in 0..22 {
            assert!(inst.map.get(x, y) == TileType::Empty);
        }
    }
}
