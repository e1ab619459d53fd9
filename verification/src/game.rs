//! The round: the tick-driven state machine tying gravity, locking,
//! line-clear animation, spawn delay, scoring and levelling, and lateral
//! auto-repeat together over one board and one falling piece.

use vstd::prelude::*;

use crate::actor::player::Player;
use crate::actor::Action;
use crate::board::{
    compaction_src, lines_count, lines_wf, Board, CompleteLines,
};
use crate::random::{
    bag_all, bag_step, create, gen_step, PieceGen, RandomGenerator, RandomGeneratorType,
};
use crate::settings::{Config, MAP_HEIGHT, MAP_WIDTH};
use vstd::multiset::Multiset;
use crate::tetrimino::{
    spawn_shape,
    is_rotated_by, spec_rotate_outcome, Orientation, Tetrimino, TileType,
};
use crate::vec::Vec2;

verus! {

/// `a + b`, clamped at the machine word.
fn sat_add(a: usize, b: usize) -> (r: usize)
    ensures
        a + b <= usize::MAX ==> r == a + b,
        a + b > usize::MAX ==> r == usize::MAX,
{
    if a > usize::MAX - b {
        usize::MAX
    } else {
        a + b
    }
}

/// `a * b`, clamped at the machine word.
fn sat_mul(a: usize, b: usize) -> (r: usize)
    ensures
        a * b <= usize::MAX ==> r == a * b,
        a * b > usize::MAX ==> r == usize::MAX,
{
    if b == 0 {
        proof {
            assert(a * 0 == 0) by (nonlinear_arith);
        }
        return 0;
    }
    let q = usize::MAX / b;
    if a > q {
        proof {
            assert(a * b > usize::MAX) by (nonlinear_arith)
                requires
                    a > usize::MAX / b,
                    b > 0,
            ;
        }
        usize::MAX
    } else {
        proof {
            assert(a * b <= usize::MAX) by (nonlinear_arith)
                requires
                    a <= usize::MAX / b,
                    b > 0,
            ;
        }
        a * b
    }
}

/// The score factor a lock earns for `n` simultaneously completed lines.
pub open spec fn score_factor(n: int) -> int {
    if n == 1 {
        40
    } else if n == 2 {
        100
    } else if n == 3 {
        300
    } else {
        1200
    }
}

/// Ticks between automatic drops at the given level: the classic console
/// gravity curve, 48 at level 0 falling to a floor of 1 from level 29 on.
pub open spec fn spec_gravity_value(level: int) -> int {
    if level == 0 {
        48
    } else if level == 1 {
        43
    } else if level == 2 {
        38
    } else if level == 3 {
        33
    } else if level == 4 {
        28
    } else if level == 5 {
        23
    } else if level == 6 {
        18
    } else if level == 7 {
        13
    } else if level == 8 {
        8
    } else if level == 9 {
        6
    } else if 10 <= level <= 12 {
        5
    } else if 13 <= level <= 15 {
        4
    } else if 16 <= level <= 18 {
        3
    } else if 19 <= level <= 28 {
        2
    } else {
        1
    }
}

/// The number of lines to clear before the first level-up, from the level
/// the round starts at.
pub open spec fn spec_line_counter(start_level: int) -> int {
    let a = start_level * 10 + 10;
    let b = if 100 >= start_level * 10 - 50 {
        100
    } else {
        start_level * 10 - 50
    };
    if a <= b {
        a
    } else {
        b
    }
}

/// Whether row `y` is one of the completed lines the list records.
pub open spec fn lines_listed(s: Seq<int>, y: int) -> bool {
    exists|i: int| 0 <= i < lines_count(s) && s[i] == y
}

/// Stamping one piece onto a board without complete rows completes at most
/// four: every newly complete row holds a stamped cell, and the piece has
/// four cells.
proof fn lemma_stamped_rows_bounded(pre: Board, post: Board, c: Tetrimino)
    requires
        forall|y: int| 0 <= y < MAP_HEIGHT ==> !pre.row_full(y),
        forall|x: int, y: int|
            0 <= x < MAP_WIDTH && 0 <= y < MAP_HEIGHT ==> post.spec_at(x, y) == (if c.covers(
                x,
                y,
            ) {
                c.tile_type
            } else {
                pre.spec_at(x, y)
            }),
    ensures
        post.full_rows_down(0).len() <= 4,
{
    assert forall|y: int|
        0 <= y < MAP_HEIGHT && #[trigger] post.row_full(y) implies y == c.cell_y(0) || y
        == c.cell_y(1) || y == c.cell_y(2) || y == c.cell_y(3) by {
        assert(!pre.row_full(y));
        let x = choose|x: int| 0 <= x < MAP_WIDTH && pre.spec_at(x, y) == TileType::Empty;
        assert(post.spec_at(x, y) != TileType::Empty);
        assert(c.covers(x, y));
        let i = choose|i: int| 0 <= i < 4 && c.cell_x(i) == x && c.cell_y(i) == y;
        assert(0 <= i < 4 && c.cell_y(i) == y);
    }
    post.lemma_full_rows_bounded(c.cell_y(0), c.cell_y(1), c.cell_y(2), c.cell_y(3));
}

/// After a scan, every complete row of the board stands in the line list.
proof fn lemma_scan_swept(m: Board, info: Seq<int>)
    requires
        info == m.full_rows_down(0) + (if m.full_rows_down(0).len() > 0 {
            seq![0int]
        } else {
            Seq::<int>::empty()
        }),
    ensures
        forall|y: int|
            0 <= y < MAP_HEIGHT && #[trigger] m.row_full(y) ==> lines_listed(info, y) && info.len()
                > 0,
{
    m.lemma_full_rows_down_elems(0);
    let fr = m.full_rows_down(0);
    assert forall|y: int|
        0 <= y < MAP_HEIGHT && #[trigger] m.row_full(y) implies lines_listed(info, y) && info.len()
        > 0 by {
        assert(fr.contains(y));
        let k = choose|k: int| 0 <= k < fr.len() && fr[k] == y;
        assert(info[k] == y);
        assert(lines_count(info) == fr.len());
        assert(lines_listed(info, y));
    }
}

/// Compaction never leaves a complete row behind: the vacated top rows
/// are empty, a surviving row pulled from a booked line was punched open
/// at the first squeezed column, and one pulled from any other row was
/// not complete to begin with.
proof fn lemma_compacted_not_full(pre: GameInstance, nm: Board)
    requires
        pre.wf(),
        pre.swept(),
        pre.animation_timer == Some(0usize),
        crate::board::cleared_rel(pre.map, pre.animation_info@, nm),
    ensures
        forall|y: int| 0 <= y < MAP_HEIGHT ==> !nm.row_full(y),
{
    reveal(crate::board::cleared_rel);
    let info = pre.animation_info@;
    let c = lines_count(info);
    assert forall|y: int| 0 <= y < MAP_HEIGHT implies !nm.row_full(y) by {
        if y < c {
            assert(nm.spec_at(0, y) == TileType::Empty);
        } else {
            let src = compaction_src(info, info.len() - 1, y);
            if info.len() >= 2 {
                crate::board::lemma_compaction_src_range(info, info.len() - 1, y);
            }
            assert(0 <= src <= y);
            if lines_listed(info, src) {
                assert(pre.map.spec_at(4, src) == TileType::Empty);
                assert(nm.spec_at(4, y) == TileType::Empty);
            } else {
                assert(!pre.map.row_full(src));
                let x = choose|x: int|
                    0 <= x < MAP_WIDTH && pre.map.spec_at(x, src) == TileType::Empty;
                assert(nm.spec_at(x, y) == TileType::Empty);
            }
        }
    }
}

/// A squeeze step, or a plain countdown tick, keeps the sweep invariant:
/// cells are only ever emptied, and the very first squeeze punches every
/// booked row open at the first squeezed column.
proof fn lemma_squeeze_swept(pre: GameInstance, post: GameInstance, t: int)
    requires
        pre.wf(),
        pre.swept(),
        0 < t <= 20,
        pre.animation_timer == Some(t as usize),
        post.animation_info == pre.animation_info,
        post.animation_timer == Some((t - 1) as usize),
        if t % 4 == 0 {
            GameInstance::squeezed_rel(pre.map, pre.animation_info@, t / 4, post.map)
        } else {
            post.map == pre.map
        },
    ensures
        post.swept(),
{
    let info = pre.animation_info@;
    if t % 4 == 0 {
        let step = t / 4;
        assert(1 <= step <= 5);
        assert forall|y: int|
            0 <= y < MAP_HEIGHT && lines_listed(info, y) implies post.map.spec_at(4, y)
            == TileType::Empty by {
            if step == 5 {
                assert(post.map.spec_at(4, y) == TileType::Empty);
            } else {
                assert(t < 20);
                assert(pre.map.spec_at(4, y) == TileType::Empty);
                assert(post.map.spec_at(4, y) == pre.map.spec_at(4, y));
            }
        }
        assert forall|y: int| 0 <= y < MAP_HEIGHT implies !post.map.row_full(y) by {
            if lines_listed(info, y) {
                assert(post.map.spec_at(step - 1, y) == TileType::Empty);
                assert(0 <= step - 1 < MAP_WIDTH);
            } else {
                if post.map.row_full(y) {
                    assert forall|x: int| 0 <= x < MAP_WIDTH implies pre.map.spec_at(x, y)
                        != TileType::Empty by {
                        assert(post.map.spec_at(x, y) != TileType::Empty);
                    }
                    assert(pre.map.row_full(y));
                    assert(lines_listed(info, y));
                }
            }
        }
    } else {
        assert(t != 20);
        assert forall|y: int|
            0 <= y < MAP_HEIGHT && #[trigger] post.map.row_full(y) implies post.animation_timer
            is Some && lines_listed(post.animation_info@, y) by {
            assert(pre.map.row_full(y));
        }
    }
}

/// Scoring determinism: a lock that completes `n` lines without crossing
/// a level boundary adds exactly the factor for `n` times the level plus
/// one to the score, and the level stays.
pub proof fn lemma_scoring_determinism(pre: GameInstance, post: GameInstance, n: int)
    requires
        GameInstance::score_rel(pre, post, n),
        1 <= n <= 4,
        pre.line_counter - n > 0,
        pre.score + score_factor(n) * (pre.level + 1) <= usize::MAX,
    ensures
        post.score == pre.score + score_factor(n) * (pre.level + 1),
        post.level == pre.level,
{
}

/// A game round.  The host calls `input` and `update` once per logical
/// tick and reads the fields back for presentation; nothing else mutates
/// them.
pub struct GameInstance {
    /// The input source the round polls.
    pub actor: Player,
    /// The piece generator the round draws from.
    pub gen: PieceGen,
    /// The board, owned exclusively by the round.
    pub map: Board,
    /// The falling piece.
    pub current: Tetrimino,
    /// The look-ahead piece.
    pub next: Tetrimino,
    /// Points scored so far.
    pub score: usize,
    /// Lines cleared so far.
    pub lines: usize,
    /// The current level.
    pub level: usize,
    /// Lines left before the next level-up; may carry a small negative
    /// remainder.
    pub line_counter: isize,
    /// Ticks until the next automatic drop; absent while a line clears or
    /// a spawn is pending.
    pub drop_timer: Option<usize>,
    /// Ticks until the next piece spawns.
    pub spawn_delay_timer: Option<usize>,
    /// Ticks left of the line-clear squeeze animation.
    pub animation_timer: Option<usize>,
    /// Whether the soft-drop action is held this tick.
    pub soft_drop: bool,
    /// The completed lines being animated and then compacted.
    pub animation_info: CompleteLines,
    /// Auto-repeat countdown for held left movement.
    pub left_timer: Option<usize>,
    /// Auto-repeat countdown for held right movement.
    pub right_timer: Option<usize>,
    /// Whether the round has ended; only a reset recovers.
    pub gameover: bool,
    /// The options the round was built with.
    pub config: Config,
}

impl GameInstance {
    /// What every tick preserves: a well-formed board, pieces on the board,
    /// a well-formed generator and line list, and timers within their
    /// arming values.
    pub open spec fn wf(self) -> bool {
        &&& self.map.wf()
        &&& self.current.wf()
        &&& self.current.cells_in_bounds()
        &&& self.next.wf()
        &&& self.next.cells_in_bounds()
        &&& self.gen.wf()
        &&& lines_wf(self.animation_info@)
        &&& -3 <= self.line_counter <= 10_000_010
        &&& self.config.start_level <= 1_000_000
        &&& match self.animation_timer {
            Some(t) => t <= 20,
            None => true,
        }
        &&& match self.drop_timer {
            Some(t) => t <= 48,
            None => true,
        }
        &&& (self.drop_timer is Some ==> self.animation_timer is None && self.spawn_delay_timer
            is None)
        &&& (self.spawn_delay_timer is Some ==> self.animation_timer is None)
    }

    /// Every complete row of the board is already booked for the sweep
    /// that is being animated; with no animation pending, no row at all is
    /// complete.  And once the first squeeze step has run (the very tick
    /// that booked the lines), every booked row has been punched open at
    /// the first squeezed column.  Ticks preserve this.
    pub open spec fn swept(self) -> bool {
        &&& forall|y: int|
            0 <= y < MAP_HEIGHT && #[trigger] self.map.row_full(y) ==> self.animation_timer
                is Some && lines_listed(self.animation_info@, y)
        &&& match self.animation_timer {
            Some(t) => t < 20 ==> forall|y: int|
                0 <= y < MAP_HEIGHT && lines_listed(self.animation_info@, y)
                    ==> self.map.spec_at(4, y) == TileType::Empty,
            None => true,
        }
    }

    /// The initial value of the line counter for a start level.
    pub fn line_counter(start_level: usize) -> (r: isize)
        requires
            start_level <= 1_000_000,
        ensures
            r == spec_line_counter(start_level as int),
    {
        let level = start_level as isize;
        let a = level * 10 + 10;
        let b = if 100 >= level * 10 - 50 {
            100
        } else {
            level * 10 - 50
        };
        if a <= b {
            a
        } else {
            b
        }
    }

    /// Ticks between automatic drops at the given level.
    pub fn gravity_value(level: usize) -> (r: usize)
        ensures
            r == spec_gravity_value(level as int),
            1 <= r <= 48,
    {
        match level {
            0 => 48,
            1 => 43,
            2 => 38,
            3 => 33,
            4 => 28,
            5 => 23,
            6 => 18,
            7 => 13,
            8 => 8,
            9 => 6,
            10 => 5,
            11 => 5,
            12 => 5,
            13 => 4,
            14 => 4,
            15 => 4,
            16 => 3,
            17 => 3,
            18 => 3,
            19 => 2,
            20 => 2,
            21 => 2,
            22 => 2,
            23 => 2,
            24 => 2,
            25 => 2,
            26 => 2,
            27 => 2,
            28 => 2,
            _ => 1,
        }
    }


    /// Both states agree on every field except the falling piece.
    pub open spec fn eq_except_current(a: GameInstance, b: GameInstance) -> bool {
        &&& b.actor == a.actor
        &&& b.gen == a.gen
        &&& b.map == a.map
        &&& b.next == a.next
        &&& b.score == a.score
        &&& b.lines == a.lines
        &&& b.level == a.level
        &&& b.line_counter == a.line_counter
        &&& b.drop_timer == a.drop_timer
        &&& b.spawn_delay_timer == a.spawn_delay_timer
        &&& b.animation_timer == a.animation_timer
        &&& b.soft_drop == a.soft_drop
        &&& b.animation_info == a.animation_info
        &&& b.left_timer == a.left_timer
        &&& b.right_timer == a.right_timer
        &&& b.gameover == a.gameover
        &&& b.config == a.config
    }

    /// Both states agree on every field except the four counters the
    /// scoring step moves.
    pub open spec fn eq_except_counters(a: GameInstance, b: GameInstance) -> bool {
        &&& b.actor == a.actor
        &&& b.gen == a.gen
        &&& b.map == a.map
        &&& b.current == a.current
        &&& b.next == a.next
        &&& b.drop_timer == a.drop_timer
        &&& b.spawn_delay_timer == a.spawn_delay_timer
        &&& b.animation_timer == a.animation_timer
        &&& b.soft_drop == a.soft_drop
        &&& b.animation_info == a.animation_info
        &&& b.left_timer == a.left_timer
        &&& b.right_timer == a.right_timer
        &&& b.gameover == a.gameover
        &&& b.config == a.config
    }

    /// Both states agree on every field except the board and the scanned
    /// line list.
    pub open spec fn eq_except_scan(a: GameInstance, b: GameInstance) -> bool {
        &&& b.actor == a.actor
        &&& b.gen == a.gen
        &&& b.current == a.current
        &&& b.next == a.next
        &&& b.score == a.score
        &&& b.lines == a.lines
        &&& b.level == a.level
        &&& b.line_counter == a.line_counter
        &&& b.drop_timer == a.drop_timer
        &&& b.spawn_delay_timer == a.spawn_delay_timer
        &&& b.animation_timer == a.animation_timer
        &&& b.soft_drop == a.soft_drop
        &&& b.left_timer == a.left_timer
        &&& b.right_timer == a.right_timer
        &&& b.gameover == a.gameover
        &&& b.config == a.config
    }

    /// How a tentative shift of the falling piece ends: committed in full
    /// with no colliding cell, or rolled back with nothing changed.
    pub open spec fn moved_rel(
        pre: GameInstance,
        post: GameInstance,
        dx: int,
        dy: int,
        r: bool,
    ) -> bool {
        if r {
            &&& post.current.pos.x == pre.current.pos.x + dx
            &&& post.current.pos.y == pre.current.pos.y + dy
            &&& post.current.tiles == pre.current.tiles
            &&& post.current.orientation == pre.current.orientation
            &&& post.current.tile_type == pre.current.tile_type
            &&& !pre.map.cells_collide(post.current.abs_cells())
        } else {
            &&& post.current == pre.current
            &&& pre.map.cells_collide(pre.current.shifted_cells(dx, dy))
        }
    }

    /// How a rotation attempt ends for the falling piece: the O piece and
    /// failed rotations leave it untouched, a committed rotation turns it
    /// with the pivot shift the kick resolution chose.
    pub open spec fn rotated_rel(pre: GameInstance, post: GameInstance, right: bool) -> bool {
        if pre.current.tile_type == TileType::O {
            post.current == pre.current
        } else {
            match spec_rotate_outcome(
                pre.current,
                pre.map,
                pre.config.wall_kicks_enabled,
                right,
            ) {
                Some(off) => is_rotated_by(pre.current, post.current, right, off),
                None => post.current == pre.current,
            }
        }
    }

    /// How a hard drop ends: the piece keeps its column, shape and
    /// orientation, rests as low as it can (one more step would collide),
    /// and every step it fell through was collision-free.
    pub open spec fn hard_dropped_rel(pre: GameInstance, post: GameInstance) -> bool {
        &&& post.current.tiles == pre.current.tiles
        &&& post.current.orientation == pre.current.orientation
        &&& post.current.tile_type == pre.current.tile_type
        &&& post.current.pos.x == pre.current.pos.x
        &&& post.current.pos.y >= pre.current.pos.y
        &&& (post.current.pos.y - pre.current.pos.y) % 2 == 0
        &&& pre.map.cells_collide(post.current.shifted_cells(0, 2))
        &&& forall|dy: int|
            2 <= dy <= post.current.pos.y - pre.current.pos.y && dy % 2 == 0
                ==> !pre.map.cells_collide(#[trigger] pre.current.shifted_cells(0, dy))
    }

    /// The stamp-and-scan half of a lock: the piece's cells take its kind,
    /// and the scanned completed lines (bottom-most first, sentinel
    /// appended) land in `animation_info`.  Kept opaque: callers pass the
    /// fact along and reveal it only where the cell-level detail matters.
    #[verifier::opaque]
    pub open spec fn scan_rel(pre: GameInstance, post: GameInstance) -> bool {
        &&& forall|x: int, y: int|
            0 <= x < MAP_WIDTH && 0 <= y < MAP_HEIGHT ==> post.map.spec_at(x, y) == (
            if pre.current.covers(x, y) {
                pre.current.tile_type
            } else {
                pre.map.spec_at(x, y)
            })
        &&& post.animation_info@ == post.map.full_rows_down(0) + (if post.map.full_rows_down(
            0,
        ).len() > 0 {
            seq![0int]
        } else {
            Seq::<int>::empty()
        })
        &&& Self::eq_except_scan(pre, post)
    }

    /// The booking half of a lock: freshly scanned lines move the counters
    /// and arm the squeeze animation, no lines arm the spawn delay, and
    /// gravity stops either way.
    pub open spec fn book_rel(mid: GameInstance, post: GameInstance) -> bool {
        &&& {
            let n = lines_count(mid.animation_info@);
            if n > 0 {
                &&& Self::score_rel(mid, post, n)
                &&& post.animation_timer == Some(20usize)
                &&& post.spawn_delay_timer == mid.spawn_delay_timer
            } else {
                &&& post.score == mid.score
                &&& post.lines == mid.lines
                &&& post.level == mid.level
                &&& post.line_counter == mid.line_counter
                &&& post.spawn_delay_timer == Some(10usize)
                &&& post.animation_timer == mid.animation_timer
            }
        }
        &&& post.drop_timer is None
        &&& post.actor == mid.actor
        &&& post.gen == mid.gen
        &&& post.map == mid.map
        &&& post.current == mid.current
        &&& post.next == mid.next
        &&& post.soft_drop == mid.soft_drop
        &&& post.animation_info == mid.animation_info
        &&& post.left_timer == mid.left_timer
        &&& post.right_timer == mid.right_timer
        &&& post.gameover == mid.gameover
        &&& post.config == mid.config
    }

    /// What locking the falling piece does: the stamp-and-scan step
    /// followed by the booking step.  The game-over flag is not touched
    /// here; the tick sets it from the look-ahead collision.
    pub open spec fn lock_rel(pre: GameInstance, post: GameInstance) -> bool {
        exists|mid: GameInstance| #[trigger] Self::scan_rel(pre, mid) && Self::book_rel(mid, post)
    }

    /// How one lock's completed lines move the counters: `n` lines are
    /// added to the total and taken off the level counter, a level-up fires
    /// when it reaches zero, and the score grows by the factor for `n`
    /// times the (possibly just incremented) level plus one.  The counters
    /// clamp at the machine word instead of overflowing.
    pub open spec fn score_rel(pre: GameInstance, post: GameInstance, n: int) -> bool {
        &&& post.lines == if pre.lines + n <= usize::MAX {
            pre.lines + n
        } else {
            usize::MAX as int
        }
        &&& {
            let lc1 = pre.line_counter - n;
            if lc1 <= 0 {
                &&& post.level == if pre.level + 1 <= usize::MAX {
                    pre.level + 1
                } else {
                    usize::MAX as int
                }
                &&& post.line_counter == lc1 + 10
            } else {
                &&& post.level == pre.level
                &&& post.line_counter == lc1
            }
        }
        &&& post.score == if pre.score + score_factor(n) * (post.level + 1) <= usize::MAX {
            pre.score + score_factor(n) * (post.level + 1)
        } else {
            usize::MAX as int
        }
    }

    /// Books `complete_lines` freshly completed lines: totals, level-up,
    /// and score, exactly as `score_rel` states.
    pub fn update_score(&mut self, complete_lines: usize)
        requires
            1 <= complete_lines <= 4,
            -3 <= old(self).line_counter <= 10_000_010,
        ensures
            Self::score_rel(*old(self), *final(self), complete_lines as int),
            -3 <= final(self).line_counter <= 10_000_010,
            Self::eq_except_counters(*old(self), *final(self)),
    {
        self.lines = sat_add(self.lines, complete_lines);
        self.line_counter = self.line_counter - (complete_lines as isize);
        if self.line_counter <= 0 {
            self.level = sat_add(self.level, 1);
            self.line_counter = 10 + self.line_counter;
        }
        let factor: usize = match complete_lines {
            1 => 40,
            2 => 100,
            3 => 300,
            _ => 1200,
        };
        let delta = sat_mul(factor, sat_add(self.level, 1));
        self.score = sat_add(self.score, delta);
        proof {
            let n = complete_lines as int;
            let pre = *old(self);
            let lvl = self.level as int;
            assert(score_factor(n) == factor);
            if pre.score + score_factor(n) * (lvl + 1) <= usize::MAX {
                if lvl + 1 <= usize::MAX {
                    assert(self.score == pre.score + factor * (lvl + 1));
                } else {
                    assert(lvl == usize::MAX);
                    assert(factor * (usize::MAX as int + 1) > usize::MAX && factor * (
                    usize::MAX as int) > usize::MAX) by (nonlinear_arith)
                        requires
                            factor >= 40,
                            usize::MAX >= 1,
                    ;
                }
            } else {
                if lvl + 1 <= usize::MAX {
                    assert(self.score == usize::MAX);
                } else {
                    assert(lvl == usize::MAX);
                    assert(factor * (usize::MAX as int + 1) > usize::MAX && factor * (
                    usize::MAX as int) > usize::MAX) by (nonlinear_arith)
                        requires
                            factor >= 40,
                            usize::MAX >= 1,
                    ;
                    assert(self.score == usize::MAX);
                }
            }
        }
    }

    /// Shifts the falling piece by `(x_off, y_off)` half-cells, committing
    /// in full or rolling back.
    fn mov(&mut self, x_off: i32, y_off: i32) -> (r: bool)
        requires
            old(self).wf(),
            x_off % 2 == 0,
            y_off % 2 == 0,
            -8 <= x_off <= 8,
            -8 <= y_off <= 8,
        ensures
            final(self).wf(),
            Self::eq_except_current(*old(self), *final(self)),
            Self::moved_rel(*old(self), *final(self), x_off as int, y_off as int, r),
            r == !old(self).map.cells_collide(
                old(self).current.shifted_cells(x_off as int, y_off as int),
            ),
    {
        proof {
            crate::tetrimino::lemma_pos_bounds(self.current);
        }
        let r = self.current.mov(&self.map, x_off, y_off);
        proof {
            if r {
                assert(self.current.abs_cells() =~= old(self).current.shifted_cells(
                    x_off as int,
                    y_off as int,
                ));
                assert forall|i: int|
                    0 <= i < 4 implies 0 <= #[trigger] self.current.cell_x(i) < MAP_WIDTH && 0
                    <= self.current.cell_y(i) < MAP_HEIGHT by {
                    assert(!self.map.cell_collides(self.current.abs_cells()[i]));
                }
            }
        }
        r
    }

    /// Consumes a left move: one cell left if nothing is in the way.
    fn left(&mut self)
        requires
            old(self).wf(),
        ensures
            final(self).wf(),
            Self::eq_except_current(*old(self), *final(self)),
            Self::moved_rel(
                *old(self),
                *final(self),
                -2,
                0,
                !old(self).map.cells_collide(old(self).current.shifted_cells(-2, 0)),
            ),
    {
        self.actor.push(Action::MoveLeft);
        self.mov(-2, 0);
    }

    /// Consumes a right move: one cell right if nothing is in the way.
    fn right(&mut self)
        requires
            old(self).wf(),
        ensures
            final(self).wf(),
            Self::eq_except_current(*old(self), *final(self)),
            Self::moved_rel(
                *old(self),
                *final(self),
                2,
                0,
                !old(self).map.cells_collide(old(self).current.shifted_cells(2, 0)),
            ),
    {
        self.actor.push(Action::MoveRight);
        self.mov(2, 0);
    }

    /// One gravity step: moves the piece one cell down, reporting whether
    /// it could.
    fn drop(&mut self) -> (r: bool)
        requires
            old(self).wf(),
        ensures
            final(self).wf(),
            Self::eq_except_current(*old(self), *final(self)),
            Self::moved_rel(*old(self), *final(self), 0, 2, r),
            r == !old(self).map.cells_collide(old(self).current.shifted_cells(0, 2)),
    {
        self.actor.push(Action::Drop);
        self.mov(0, 2)
    }

    /// Rotates the falling piece 90 degrees in the given direction, with
    /// wall kicks as configured.
    fn rotate(&mut self, right: bool)
        requires
            old(self).wf(),
        ensures
            final(self).wf(),
            Self::eq_except_current(*old(self), *final(self)),
            Self::rotated_rel(*old(self), *final(self), right),
    {
        proof {
            crate::tetrimino::lemma_pos_bounds(self.current);
        }
        let kicks = self.config.wall_kicks_enabled;
        let committed = self.current.rotate(kicks, &self.map, right);
        proof {
            if committed && self.current.tile_type != TileType::O {
                assert forall|i: int|
                    0 <= i < 4 implies 0 <= #[trigger] self.current.cell_x(i) < MAP_WIDTH && 0
                    <= self.current.cell_y(i) < MAP_HEIGHT by {
                    assert(!self.map.cell_collides(self.current.abs_cells()[i]));
                }
            }
        }
    }

    /// Consumes a counter-clockwise rotation.
    fn rotate_left(&mut self)
        requires
            old(self).wf(),
        ensures
            final(self).wf(),
            Self::eq_except_current(*old(self), *final(self)),
            Self::rotated_rel(*old(self), *final(self), false),
    {
        self.actor.push(Action::RotateLeft);
        self.rotate(false);
    }

    /// Consumes a clockwise rotation.
    fn rotate_right(&mut self)
        requires
            old(self).wf(),
        ensures
            final(self).wf(),
            Self::eq_except_current(*old(self), *final(self)),
            Self::rotated_rel(*old(self), *final(self), true),
    {
        self.actor.push(Action::RotateRight);
        self.rotate(true);
    }

    /// Sends the piece straight down to where it rests, when the rule
    /// variant allows it; locking still happens on the gravity tick.
    fn hard_drop(&mut self)
        requires
            old(self).wf(),
        ensures
            final(self).wf(),
            Self::eq_except_current(*old(self), *final(self)),
            old(self).config.hard_drop_enabled ==> Self::hard_dropped_rel(*old(self), *final(self)),
            !old(self).config.hard_drop_enabled ==> *final(self) == *old(self),
    {
        if self.config.hard_drop_enabled {
            loop
                invariant_except_break
                    self.wf(),
                    Self::eq_except_current(*old(self), *self),
                    self.current.tiles == old(self).current.tiles,
                    self.current.orientation == old(self).current.orientation,
                    self.current.tile_type == old(self).current.tile_type,
                    self.current.pos.x == old(self).current.pos.x,
                    self.current.pos.y >= old(self).current.pos.y,
                    (self.current.pos.y - old(self).current.pos.y) % 2 == 0,
                    forall|dy: int|
                        2 <= dy <= self.current.pos.y - old(self).current.pos.y && dy % 2 == 0
                            ==> !old(self).map.cells_collide(
                            #[trigger] old(self).current.shifted_cells(0, dy),
                        ),
                ensures
                    self.wf(),
                    Self::eq_except_current(*old(self), *self),
                    Self::hard_dropped_rel(*old(self), *self),
                decreases 50 - self.current.pos.y,
            {
                proof {
                    crate::tetrimino::lemma_pos_bounds(self.current);
                }
                let ghost before = *self;
                let fell = self.drop();
                proof {
                    let base = old(self).current;
                    let dy0 = before.current.pos.y - base.pos.y;
                    if fell {
                        assert(self.current.shifted_cells(0, 0) =~= base.shifted_cells(
                            0,
                            dy0 + 2,
                        ));
                        assert(self.current.abs_cells() =~= self.current.shifted_cells(0, 0));
                        assert forall|dy: int|
                            2 <= dy <= self.current.pos.y - base.pos.y && dy % 2 == 0 implies !old(
                            self,
                        ).map.cells_collide(#[trigger] base.shifted_cells(0, dy)) by {
                            if dy == dy0 + 2 {
                                assert(!old(self).map.cells_collide(base.shifted_cells(0, dy)));
                            }
                        }
                    } else {
                        assert(before.current.shifted_cells(0, 2) =~= base.shifted_cells(
                            0,
                            dy0 + 2,
                        ));
                    }
                }
                if !fell {
                    break;
                }
            }
        }
    }

    /// Stamps the falling piece into the board and scans the result for
    /// completed lines, which land in `animation_info`; nothing else moves.
    #[verifier::rlimit(100)]
    fn stamp_and_scan(&mut self)
        requires
            old(self).wf(),
            forall|y: int| 0 <= y < MAP_HEIGHT ==> !old(self).map.row_full(y),
        ensures
            final(self).map.wf(),
            lines_wf(final(self).animation_info@),
            Self::scan_rel(*old(self), *final(self)),
            lines_count(final(self).animation_info@) <= 4,
            forall|y: int|
                0 <= y < MAP_HEIGHT && #[trigger] final(self).map.row_full(y) ==> lines_listed(
                    final(self).animation_info@,
                    y,
                ) && final(self).animation_info@.len() > 0,
            Self::eq_except_scan(*old(self), *final(self)),
    {
        proof {
            reveal(GameInstance::scan_rel);
        }
        self.map.apply(&self.current);
        proof {
            lemma_stamped_rows_bounded(old(self).map, self.map, old(self).current);
        }
        self.animation_info = self.map.complete_lines();
        proof {
            lemma_scan_swept(self.map, self.animation_info@);
        }
    }

    /// Books a completed scan: freshly completed lines move the counters
    /// and arm the squeeze animation, none arm the spawn delay; gravity
    /// stops either way.
    fn book_lines(&mut self)
        requires
            -3 <= old(self).line_counter <= 10_000_010,
            lines_wf(old(self).animation_info@),
            lines_count(old(self).animation_info@) <= 4,
        ensures
            Self::book_rel(*old(self), *final(self)),
    {
        if !self.animation_info.is_empty() {
            let n = self.animation_info.len();
            assert(1 <= n <= 4);
            self.update_score(n);
            self.animation_timer = Some(20);
        } else {
            self.spawn_delay_timer = Some(10);
        }
        self.drop_timer = None;
    }

    /// Locks the falling piece: stamps it into the board, scans for
    /// completed lines and books them (arming the squeeze animation), or
    /// arms the spawn delay; gravity stops either way.  Reports whether
    /// the look-ahead piece already collides, which ends the round.
    #[verifier::rlimit(100)]
    pub fn update_drop(&mut self) -> (r: bool)
        requires
            old(self).wf(),
            old(self).animation_timer is None,
            old(self).spawn_delay_timer is None,
            forall|y: int| 0 <= y < MAP_HEIGHT ==> !old(self).map.row_full(y),
        ensures
            final(self).wf(),
            Self::lock_rel(*old(self), *final(self)),
            final(self).swept(),
            r == final(self).map.cells_collide(old(self).next.abs_cells()),
    {
        self.stamp_and_scan();
        let ghost mid = *self;
        self.book_lines();
        proof {
            assert(Self::lock_rel(*old(self), *self)) by {
                assert(Self::scan_rel(*old(self), mid) && Self::book_rel(mid, *self));
            }
        }
        self.map.collision(&self.next)
    }

    /// Whether this tick's gravity step locks the piece: the drop timer has
    /// reached zero and one more step down would collide.
    pub open spec fn lock_now(pre: GameInstance) -> bool {
        pre.drop_timer == Some(0usize) && pre.map.cells_collide(pre.current.shifted_cells(0, 2))
    }

    /// One tick of the gravity channel: an armed timer counts down (twice
    /// as fast under soft drop), fires a one-cell drop at zero, and a drop
    /// that cannot happen locks the piece and decides game over from the
    /// look-ahead collision.
    pub open spec fn gravity_rel(pre: GameInstance, post: GameInstance) -> bool {
        match pre.drop_timer {
            None => post == pre,
            Some(t) => if t == 0 {
                if !pre.map.cells_collide(pre.current.shifted_cells(0, 2)) {
                    post == (GameInstance {
                        current: (Tetrimino {
                            pos: (Vec2 { x: pre.current.pos.x, y: (pre.current.pos.y + 2) as i32 }),
                            ..pre.current
                        }),
                        drop_timer: Some(spec_gravity_value(pre.level as int) as usize),
                        ..pre
                    })
                } else {
                    exists|m: GameInstance|
                        #![auto]
                        Self::lock_rel(pre, m) && post == (GameInstance {
                            gameover: m.map.cells_collide(pre.next.abs_cells()),
                            ..m
                        })
                }
            } else {
                post == (GameInstance {
                    drop_timer: Some(
                        (if pre.soft_drop && t >= 2 {
                            (t - 2) as int
                        } else {
                            (t - 1) as int
                        }) as usize,
                    ),
                    ..pre
                })
            },
        }
    }

    /// The squeeze step of the line-clear animation: the two columns
    /// counted `step` in from each edge are punched empty on every booked
    /// row.
    pub open spec fn squeezed_rel(m: Board, lines: Seq<int>, step: int, post: Board) -> bool {
        forall|x: int, y: int|
            0 <= x < MAP_WIDTH && 0 <= y < MAP_HEIGHT ==> post.spec_at(x, y) == (if (x == step - 1
                || x == MAP_WIDTH - step) && lines_listed(lines, y) {
                TileType::Empty
            } else {
                m.spec_at(x, y)
            })
    }

    /// One tick of the line-clear animation channel: every fourth tick
    /// squeezes two more columns, and at zero the booked lines are
    /// compacted away and the spawn delay is armed.
    pub open spec fn anim_rel(pre: GameInstance, post: GameInstance) -> bool {
        match pre.animation_timer {
            None => post == pre,
            Some(t) => if t == 0 {
                exists|nm: Board|
                    #![auto]
                    {
                        &&& nm.wf()
                        &&& crate::board::cleared_rel(pre.map, pre.animation_info@, nm)
                        &&& post == (GameInstance {
                            map: nm,
                            spawn_delay_timer: Some(10usize),
                            animation_timer: None,
                            ..pre
                        })
                    }
            } else {
                exists|nm: Board|
                    #![auto]
                    {
                        &&& nm.wf()
                        &&& (if t % 4 == 0 {
                            Self::squeezed_rel(pre.map, pre.animation_info@, (t / 4) as int, nm)
                        } else {
                            nm == pre.map
                        })
                        &&& post == (GameInstance {
                            map: nm,
                            animation_timer: Some((t - 1) as usize),
                            ..pre
                        })
                    }
            },
        }
    }

    /// One tick of the spawn-delay channel: the timer counts down, and at
    /// zero the look-ahead piece becomes current, a fresh look-ahead is
    /// drawn, and gravity restarts for the current level.
    pub open spec fn spawn_rel(pre: GameInstance, post: GameInstance) -> bool {
        match pre.spawn_delay_timer {
            None => post == pre,
            Some(t) => if t == 0 {
                exists|g: PieceGen, k: TileType, np: Tetrimino|
                    #![auto]
                    {
                        &&& gen_step(pre.gen, g, k)
                        &&& k != TileType::Empty
                        &&& np.wf()
                        &&& np.tile_type == k
                        &&& np.orientation == Orientation::Deg0
                        &&& spawn_shape(k, np.pos, np.tiles@)
                        &&& post == (GameInstance {
                            current: pre.next,
                            next: np,
                            gen: g,
                            drop_timer: Some(spec_gravity_value(pre.level as int) as usize),
                            spawn_delay_timer: None,
                            ..pre
                        })
                    }
            } else {
                post == (GameInstance { spawn_delay_timer: Some((t - 1) as usize), ..pre })
            },
        }
    }

    /// The end-of-tick actor refresh: the player remembers which
    /// edge-triggered keys are down.
    pub open spec fn actor_rel(pre: GameInstance, post: GameInstance) -> bool {
        exists|a: Player|
            #![auto]
            {
                &&& a.keys == pre.actor.keys
                &&& a.was_rcontrol_pressed == pre.actor.keys.rcontrol
                &&& a.was_y_pressed == pre.actor.keys.y
                &&& a.was_z_pressed == pre.actor.keys.z
                &&& a.was_up_pressed == pre.actor.keys.up
                &&& a.was_x_pressed == pre.actor.keys.x
                &&& a.was_space_pressed == pre.actor.keys.space
                &&& post == (GameInstance { actor: a, ..pre })
            }
    }

    /// Runs the gravity channel for this tick; reports whether the round
    /// just ended (a lock whose look-ahead piece cannot be placed).
    fn step_gravity(&mut self) -> (stop: bool)
        requires
            old(self).wf(),
            old(self).swept(),
        ensures
            final(self).wf(),
            final(self).swept(),
            Self::gravity_rel(*old(self), *final(self)),
            stop == (Self::lock_now(*old(self)) && final(self).gameover),
    {
        if self.actor.is_auto_drop() {
            if let Some(timer) = self.drop_timer {
                if timer == 0 {
                    if !self.drop() {
                        proof {
                            assert(*self == *old(self));
                        }
                        let go = self.update_drop();
                        let ghost m_lock = *self;
                        self.gameover = go;
                        proof {
                            assert(*self == (GameInstance {
                                gameover: m_lock.map.cells_collide(old(self).next.abs_cells()),
                                ..m_lock
                            }));
                        }
                        return go;
                    } else {
                        self.drop_timer = Some(Self::gravity_value(self.level));
                        return false;
                    }
                } else {
                    if self.soft_drop && timer >= 2 {
                        self.drop_timer = Some(timer - 2);
                    } else {
                        self.drop_timer = Some(timer - 1);
                    }
                    return false;
                }
            }
            false
        } else {
            if self.actor.check(Action::Drop) {
                if !self.drop() {
                    let go = self.update_drop();
                    self.gameover = go;
                    return go;
                }
            }
            false
        }
    }

    /// Runs the line-clear animation channel for this tick.
    #[verifier::rlimit(100)]
    fn step_animation(&mut self)
        requires
            old(self).wf(),
            old(self).swept(),
        ensures
            final(self).wf(),
            final(self).swept(),
            Self::anim_rel(*old(self), *final(self)),
    {
        if let Some(timer) = self.animation_timer {
            if timer == 0 {
                let ghost pre = *old(self);
                self.map.clear(&self.animation_info);
                self.spawn_delay_timer = Some(10);
                self.animation_timer = None;
                proof {
                    lemma_compacted_not_full(pre, self.map);
                }
            } else {
                if timer % 4 == 0 {
                    let count = self.animation_info.len();
                    let step = timer / 4;
                    let x0 = step - 1;
                    let x1 = MAP_WIDTH - step;
                    let ghost pre_map = self.map;
                    let ghost info = self.animation_info@;
                    let mut i: usize = 0;
                    while i < count
                        invariant
                            self.map.wf(),
                            Self::eq_except_scan(*old(self), *self),
                            self.animation_info == old(self).animation_info,
                            lines_wf(info),
                            info == self.animation_info@,
                            count == lines_count(info),
                            i <= count,
                            1 <= step <= 5,
                            x0 == step - 1,
                            x1 == MAP_WIDTH - step,
                            forall|x: int, yy: int|
                                0 <= x < MAP_WIDTH && 0 <= yy < MAP_HEIGHT
                                    ==> #[trigger] self.map.spec_at(x, yy) == (if (x == x0 || x
                                    == x1) && (exists|j: int| 0 <= j < i && info[j] == yy) {
                                    TileType::Empty
                                } else {
                                    pre_map.spec_at(x, yy)
                                }),
                        decreases count - i,
                    {
                        let y = self.animation_info.index(i);
                        self.map.set(x0, y, TileType::Empty);
                        self.map.set(x1, y, TileType::Empty);
                        i = i + 1;
                        proof {
                            assert forall|x: int, yy: int|
                                0 <= x < MAP_WIDTH && 0 <= yy < MAP_HEIGHT implies #[trigger] self.map.spec_at(x, yy) == (if (x == x0 || x == x1) && (exists|j: int|
                                0 <= j < i && info[j] == yy) {
                                TileType::Empty
                            } else {
                                pre_map.spec_at(x, yy)
                            }) by {
                                if (x == x0 || x == x1) && yy == y {
                                    assert(info[i - 1] == yy);
                                }
                            }
                        }
                    }
                }
                self.animation_timer = Some(timer - 1);
                proof {
                    if timer % 4 == 0 {
                        assert(Self::squeezed_rel(
                            old(self).map,
                            old(self).animation_info@,
                            (timer / 4) as int,
                            self.map,
                        ));
                    }
                    lemma_squeeze_swept(*old(self), *self, timer as int);
                }
            }
        }
    }

    /// Runs the spawn-delay channel for this tick.
    fn step_spawn(&mut self)
        requires
            old(self).wf(),
            old(self).swept(),
        ensures
            final(self).wf(),
            final(self).swept(),
            Self::spawn_rel(*old(self), *final(self)),
    {
        if let Some(timer) = self.spawn_delay_timer {
            if timer == 0 {
                self.current = self.next;
                let k = self.gen.next();
                self.next = Tetrimino::new(k);
                let sc = self.score;
                let ln = self.lines;
                let lv = self.level;
                let cur_kind = self.current.tile_type;
                let next_kind = self.next.tile_type;
                self.actor.on_spawn(&self.map, cur_kind, next_kind, sc, ln, lv);
                self.drop_timer = Some(Self::gravity_value(self.level));
                self.spawn_delay_timer = None;
            } else {
                self.spawn_delay_timer = Some(timer - 1);
            }
        }
    }

    /// One logical tick: gravity (and a possible lock), then the line-clear
    /// animation, then the spawn delay, then the actor's end-of-tick
    /// refresh; a lock whose look-ahead piece cannot be placed ends the
    /// round at once.
    pub fn update(&mut self)
        requires
            old(self).wf(),
            old(self).swept(),
        ensures
            final(self).wf(),
            final(self).swept(),
            Self::lock_now(*old(self)) && final(self).gameover ==> Self::gravity_rel(
                *old(self),
                *final(self),
            ),
            !(Self::lock_now(*old(self)) && final(self).gameover) ==> exists|
                m1: GameInstance,
                m2: GameInstance,
                m3: GameInstance,
            |
                #![trigger GameInstance::anim_rel(m1, m2), GameInstance::spawn_rel(m2, m3)]
                {
                    &&& Self::gravity_rel(*old(self), m1)
                    &&& Self::anim_rel(m1, m2)
                    &&& Self::spawn_rel(m2, m3)
                    &&& Self::actor_rel(m3, *final(self))
                },
    {
        let stop = self.step_gravity();
        let ghost m1 = *self;
        if stop {
            proof {
                assert(Self::gravity_rel(*old(self), *self));
            }
            return;
        }
        self.step_animation();
        let ghost m2 = *self;
        self.step_spawn();
        let ghost m3 = *self;
        self.actor.update();
        proof {
            assert(Self::actor_rel(m3, *self)) by {
                let a = self.actor;
                assert(a.keys == m3.actor.keys && *self == (GameInstance { actor: a, ..m3 }));
            }
            assert(Self::gravity_rel(*old(self), m1) && Self::anim_rel(m1, m2) && Self::spawn_rel(
                m2,
                m3,
            ));
        }
    }

    /// The soft-drop flag takes this tick's query result; nothing else
    /// moves.
    pub open spec fn soft_rel(pre: GameInstance, post: GameInstance) -> bool {
        post == (GameInstance { soft_drop: pre.actor.spec_check(Action::SoftDrop), ..pre })
    }

    /// A committed one-cell shift of the falling piece, everything else
    /// untouched.
    pub open spec fn stepped_rel(pre: GameInstance, post: GameInstance, dx: int) -> bool {
        &&& Self::moved_rel(
            pre,
            post,
            dx,
            0,
            !pre.map.cells_collide(pre.current.shifted_cells(dx, 0)),
        )
        &&& Self::eq_except_current(pre, post)
    }

    /// The delayed-auto-shift channel for held left movement: a fresh press
    /// moves at once and arms a 16-tick timer, expiry moves again and
    /// rearms to 6 ticks, release disarms.
    pub open spec fn das_left_rel(pre: GameInstance, post: GameInstance) -> bool {
        if pre.actor.spec_check(Action::MoveLeft) {
            match pre.left_timer {
                Some(t) => if t == 0 {
                    exists|mid: GameInstance|
                        #![auto]
                        Self::stepped_rel(pre, mid, -2) && post == (GameInstance {
                            left_timer: Some(6usize),
                            ..mid
                        })
                } else {
                    post == (GameInstance { left_timer: Some((t - 1) as usize), ..pre })
                },
                None => exists|mid: GameInstance|
                    #![auto]
                    Self::stepped_rel(pre, mid, -2) && post == (GameInstance {
                        left_timer: Some(16usize),
                        ..mid
                    }),
            }
        } else {
            post == (GameInstance { left_timer: None, ..pre })
        }
    }

    /// The delayed-auto-shift channel for held right movement.
    pub open spec fn das_right_rel(pre: GameInstance, post: GameInstance) -> bool {
        if pre.actor.spec_check(Action::MoveRight) {
            match pre.right_timer {
                Some(t) => if t == 0 {
                    exists|mid: GameInstance|
                        #![auto]
                        Self::stepped_rel(pre, mid, 2) && post == (GameInstance {
                            right_timer: Some(6usize),
                            ..mid
                        })
                } else {
                    post == (GameInstance { right_timer: Some((t - 1) as usize), ..pre })
                },
                None => exists|mid: GameInstance|
                    #![auto]
                    Self::stepped_rel(pre, mid, 2) && post == (GameInstance {
                        right_timer: Some(16usize),
                        ..mid
                    }),
            }
        } else {
            post == (GameInstance { right_timer: None, ..pre })
        }
    }

    /// An edge-triggered rotation fires when its action is asserted.
    pub open spec fn rot_rel(pre: GameInstance, post: GameInstance, right: bool) -> bool {
        if pre.actor.spec_check(
            if right {
                Action::RotateRight
            } else {
                Action::RotateLeft
            },
        ) {
            Self::rotated_rel(pre, post, right) && Self::eq_except_current(pre, post)
        } else {
            post == pre
        }
    }

    /// An edge-triggered hard drop fires when asserted and the rule variant
    /// allows it.
    pub open spec fn hard_rel(pre: GameInstance, post: GameInstance) -> bool {
        if pre.actor.spec_check(Action::HardDrop) {
            &&& Self::eq_except_current(pre, post)
            &&& (pre.config.hard_drop_enabled ==> Self::hard_dropped_rel(pre, post))
            &&& (!pre.config.hard_drop_enabled ==> post == pre)
        } else {
            post == pre
        }
    }

    /// Runs the left auto-repeat channel for this tick.
    fn das_left(&mut self)
        requires
            old(self).wf(),
        ensures
            final(self).wf(),
            Self::das_left_rel(*old(self), *final(self)),
    {
        if self.actor.check(Action::MoveLeft) {
            if let Some(timer) = self.left_timer {
                if timer == 0 {
                    self.left();
                    let ghost mid = *self;
                    self.left_timer = Some(6);
                    proof {
                        assert(Self::stepped_rel(*old(self), mid, -2));
                    }
                } else {
                    self.left_timer = Some(timer - 1);
                }
            } else {
                self.left();
                let ghost mid = *self;
                self.left_timer = Some(16);
                proof {
                    assert(Self::stepped_rel(*old(self), mid, -2));
                }
            }
        } else {
            self.left_timer = None;
        }
    }

    /// Runs the right auto-repeat channel for this tick.
    fn das_right(&mut self)
        requires
            old(self).wf(),
        ensures
            final(self).wf(),
            Self::das_right_rel(*old(self), *final(self)),
    {
        if self.actor.check(Action::MoveRight) {
            if let Some(timer) = self.right_timer {
                if timer == 0 {
                    self.right();
                    let ghost mid = *self;
                    self.right_timer = Some(6);
                    proof {
                        assert(Self::stepped_rel(*old(self), mid, 2));
                    }
                } else {
                    self.right_timer = Some(timer - 1);
                }
            } else {
                self.right();
                let ghost mid = *self;
                self.right_timer = Some(16);
                proof {
                    assert(Self::stepped_rel(*old(self), mid, 2));
                }
            }
        } else {
            self.right_timer = None;
        }
    }

    /// Applies this tick's movement actions: the soft-drop flag and the
    /// two lateral auto-repeat channels.
    fn apply_moves(&mut self)
        requires
            old(self).wf(),
        ensures
            final(self).wf(),
            final(self).map == old(self).map,
            final(self).animation_info == old(self).animation_info,
            final(self).animation_timer == old(self).animation_timer,
            final(self).spawn_delay_timer == old(self).spawn_delay_timer,
            final(self).drop_timer == old(self).drop_timer,
            exists|i1: GameInstance, i2: GameInstance|
                #![trigger GameInstance::das_left_rel(i1, i2)]
                {
                    &&& Self::soft_rel(*old(self), i1)
                    &&& Self::das_left_rel(i1, i2)
                    &&& Self::das_right_rel(i2, *final(self))
                },
    {
        let sd = self.actor.check(Action::SoftDrop);
        self.soft_drop = sd;
        let ghost i1 = *self;
        self.das_left();
        let ghost i2 = *self;
        self.das_right();
        proof {
            assert(Self::soft_rel(*old(self), i1));
            assert(Self::das_left_rel(i1, i2) && Self::das_right_rel(i2, *self));
        }
    }

    /// Applies this tick's edge-triggered presses: the two rotations and
    /// the hard drop.
    fn apply_presses(&mut self)
        requires
            old(self).wf(),
        ensures
            final(self).wf(),
            final(self).map == old(self).map,
            final(self).animation_info == old(self).animation_info,
            final(self).animation_timer == old(self).animation_timer,
            final(self).spawn_delay_timer == old(self).spawn_delay_timer,
            final(self).drop_timer == old(self).drop_timer,
            exists|i4: GameInstance|
                #![trigger GameInstance::rot_rel(*old(self), i4, false)]
                {
                    &&& Self::rot_rel(*old(self), i4, false)
                    &&& exists|i5: GameInstance|
                        #![trigger GameInstance::rot_rel(i4, i5, true)]
                        {
                            &&& Self::rot_rel(i4, i5, true)
                            &&& Self::hard_rel(i5, *final(self))
                        }
                },
    {
        if self.actor.check(Action::RotateLeft) {
            self.rotate_left();
        }
        let ghost i4 = *self;
        if self.actor.check(Action::RotateRight) {
            self.rotate_right();
        }
        let ghost i5 = *self;
        if self.actor.check(Action::HardDrop) {
            self.hard_drop();
        }
        proof {
            assert(Self::rot_rel(*old(self), i4, false)) by {};
            assert(Self::rot_rel(i4, i5, true)) by {};
            assert(Self::hard_rel(i5, *self)) by {};
        }
    }

    /// Polls the actor for this tick's actions and applies them: the
    /// soft-drop flag, the two lateral auto-repeat channels, the two
    /// edge-triggered rotations, and the hard drop, in that order.  The
    /// board, the timers of the other channels, and the counters are not
    /// touched.
    pub fn input(&mut self)
        requires
            old(self).wf(),
        ensures
            final(self).wf(),
            final(self).map == old(self).map,
            final(self).animation_info == old(self).animation_info,
            final(self).animation_timer == old(self).animation_timer,
            final(self).spawn_delay_timer == old(self).spawn_delay_timer,
            final(self).drop_timer == old(self).drop_timer,
            exists|i1: GameInstance, i2: GameInstance, i3: GameInstance|
                #![trigger GameInstance::das_left_rel(i1, i2), GameInstance::das_right_rel(i2, i3)]
                {
                    &&& Self::soft_rel(*old(self), i1)
                    &&& Self::das_left_rel(i1, i2)
                    &&& Self::das_right_rel(i2, i3)
                    &&& exists|i4: GameInstance|
                        #![trigger GameInstance::rot_rel(i3, i4, false)]
                        {
                            &&& Self::rot_rel(i3, i4, false)
                            &&& exists|i5: GameInstance|
                                #![trigger GameInstance::rot_rel(i4, i5, true)]
                                {
                                    &&& Self::rot_rel(i4, i5, true)
                                    &&& Self::hard_rel(i5, *final(self))
                                }
                        }
                },
    {
        self.apply_moves();
        let ghost i3 = *self;
        self.apply_presses();
    }

    /// The first two pieces of a fresh round came out of the generator the
    /// configuration asked for, freshly seeded: a bag round's pieces are
    /// its first two bag draws (so their kinds differ), and an NES round's
    /// generator remembers the look-ahead piece as its last deal.
    pub open spec fn freshly_drawn(r: GameInstance, config: Config) -> bool {
        match r.gen {
            PieceGen::Bag(b) => {
                &&& config.random_generator == RandomGeneratorType::RandomBag
                &&& exists|s1: Multiset<TileType>|
                    #![auto]
                    bag_step(bag_all(), r.current.tile_type, s1) && bag_step(
                        s1,
                        r.next.tile_type,
                        b.pending(),
                    )
            },
            PieceGen::Nes(n) => {
                &&& config.random_generator == RandomGeneratorType::RandomNES
                &&& n.last_kind() == r.next.tile_type
            },
        }
    }

    /// A fresh round over the given configuration and seed: an empty
    /// board, the first two pieces drawn from the freshly seeded
    /// generator, counters at their start values, and gravity armed for
    /// the start level.
    pub fn new(config: Config, seed: [u8; 32]) -> (r: GameInstance)
        requires
            config.start_level <= 1_000_000,
        ensures
            r.wf(),
            r.swept(),
            r.score == 0,
            r.lines == 0,
            r.level == config.start_level,
            r.line_counter == spec_line_counter(config.start_level as int),
            forall|x: int, y: int|
                0 <= x < MAP_WIDTH && 0 <= y < MAP_HEIGHT ==> r.map.spec_at(x, y)
                    == TileType::Empty,
            r.gameover == false,
            r.config == config,
            r.drop_timer == Some(spec_gravity_value(config.start_level as int) as usize),
            r.spawn_delay_timer is None,
            r.animation_timer is None,
            r.soft_drop == false,
            r.animation_info@ == Seq::<int>::empty(),
            r.left_timer is None,
            r.right_timer is None,
            r.current.orientation == Orientation::Deg0,
            spawn_shape(r.current.tile_type, r.current.pos, r.current.tiles@),
            r.next.orientation == Orientation::Deg0,
            spawn_shape(r.next.tile_type, r.next.pos, r.next.tiles@),
            Self::freshly_drawn(r, config),
    {
        let mut actor = Player::new();
        let mut gen = create(seed, config.random_generator);
        let k1 = gen.next();
        let ghost g1 = gen;
        let current = Tetrimino::new(k1);
        let k2 = gen.next();
        let next = Tetrimino::new(k2);
        proof {
            match g1 {
                PieceGen::Bag(b1) => {
                    assert(bag_step(bag_all(), k1, b1.pending()));
                },
                PieceGen::Nes(_) => {},
            }
        }
        let start_level = config.start_level;
        let line_counter = GameInstance::line_counter(start_level);
        let map = Board::new();
        actor.on_spawn(&map, current.tile_type, next.tile_type, 0, 0, start_level);
        proof {
            assert forall|y: int| 0 <= y < MAP_HEIGHT implies !map.row_full(y) by {
                assert(map.spec_at(0, y) == TileType::Empty);
            }
        }
        GameInstance {
            actor,
            gen,
            map,
            current,
            next,
            score: 0,
            lines: 0,
            level: start_level,
            line_counter,
            drop_timer: Some(GameInstance::gravity_value(start_level)),
            spawn_delay_timer: None,
            animation_timer: None,
            soft_drop: false,
            animation_info: CompleteLines::new(),
            left_timer: None,
            right_timer: None,
            gameover: false,
            config,
        }
    }

    /// Returns the round to its initial falling state: a fresh board, the
    /// first two pieces drawn from a generator freshly seeded with the
    /// newly supplied seed, and counters back at the configuration's start
    /// values.  The actor stays.
    pub fn reset(&mut self, config: Config, seed: [u8; 32])
        requires
            config.start_level <= 1_000_000,
        ensures
            final(self).wf(),
            final(self).swept(),
            final(self).actor == old(self).actor,
            final(self).score == 0,
            final(self).lines == 0,
            final(self).level == config.start_level,
            final(self).line_counter == spec_line_counter(config.start_level as int),
            forall|x: int, y: int|
                0 <= x < MAP_WIDTH && 0 <= y < MAP_HEIGHT ==> final(self).map.spec_at(x, y)
                    == TileType::Empty,
            final(self).gameover == false,
            final(self).config == config,
            final(self).drop_timer == Some(spec_gravity_value(config.start_level as int) as usize),
            final(self).spawn_delay_timer is None,
            final(self).animation_timer is None,
            final(self).soft_drop == false,
            final(self).animation_info@ == Seq::<int>::empty(),
            final(self).left_timer is None,
            final(self).right_timer is None,
            Self::freshly_drawn(*final(self), config),
    {
        self.map.reset();
        self.gen = create(seed, config.random_generator);
        let k1 = self.gen.next();
        let ghost g1 = self.gen;
        self.current = Tetrimino::new(k1);
        let k2 = self.gen.next();
        self.next = Tetrimino::new(k2);
        proof {
            match g1 {
                PieceGen::Bag(b1) => {
                    assert(bag_step(bag_all(), k1, b1.pending()));
                },
                PieceGen::Nes(_) => {},
            }
        }
        self.score = 0;
        self.lines = 0;
        self.level = config.start_level;
        self.line_counter = GameInstance::line_counter(config.start_level);
        self.drop_timer = Some(GameInstance::gravity_value(config.start_level));
        self.spawn_delay_timer = None;
        self.animation_timer = None;
        self.soft_drop = false;
        self.animation_info = CompleteLines::new();
        self.left_timer = None;
        self.right_timer = None;
        self.gameover = false;
        self.config = config;
        proof {
            assert forall|y: int| 0 <= y < MAP_HEIGHT implies !self.map.row_full(y) by {
                assert(self.map.spec_at(0, y) == TileType::Empty);
            }
        }
    }
}

} // verus!
