//! Piece kinds, orientations, and the falling tetrimino.
//!
//! Coordinates are kept in *half-cell units*: a piece's pivot may sit on a
//! cell centre or on a cell corner, so every position and cell offset is
//! stored doubled, as an integer.  A pivot of `(9, 3)` means board point
//! `(4.5, 1.5)` in cells.  The pivot and each offset always have equal
//! parity, so the absolute cell `(pivot + offset) / 2` is exact.

use vstd::prelude::*;

use crate::board::Board;
use crate::vec::Vec2;

verus! {

/// The seven piece kinds plus the empty cell.
#[derive(Copy, Clone, PartialEq, Eq, Structural, Debug)]
pub enum TileType {
    I,
    O,
    T,
    S,
    Z,
    J,
    L,
    Empty,
}

impl TileType {
    /// The kind at a given index, `Empty` for anything past the seven kinds.
    pub open spec fn spec_from_usize(n: int) -> TileType {
        if n == 0 {
            TileType::I
        } else if n == 1 {
            TileType::O
        } else if n == 2 {
            TileType::T
        } else if n == 3 {
            TileType::S
        } else if n == 4 {
            TileType::Z
        } else if n == 5 {
            TileType::J
        } else if n == 6 {
            TileType::L
        } else {
            TileType::Empty
        }
    }

    /// Maps an index to a piece kind; indices past the seven kinds give
    /// `Empty`.
    pub fn from_usize(n: usize) -> (r: TileType)
        ensures
            r == TileType::spec_from_usize(n as int),
    {
        match n {
            0 => TileType::I,
            1 => TileType::O,
            2 => TileType::T,
            3 => TileType::S,
            4 => TileType::Z,
            5 => TileType::J,
            6 => TileType::L,
            _ => TileType::Empty,
        }
    }
}

/// The four orientations a piece can take, in clockwise order.
#[derive(Copy, Clone, PartialEq, Eq, Structural, Debug)]
pub enum Orientation {
    Deg0,
    Deg90,
    Deg180,
    Deg270,
}

impl Orientation {
    /// One 90-degree step from this orientation.
    pub open spec fn spec_rotate(self, clockwise: bool) -> Orientation {
        match self {
            Orientation::Deg0 => if clockwise {
                Orientation::Deg90
            } else {
                Orientation::Deg270
            },
            Orientation::Deg90 => if clockwise {
                Orientation::Deg180
            } else {
                Orientation::Deg0
            },
            Orientation::Deg180 => if clockwise {
                Orientation::Deg270
            } else {
                Orientation::Deg90
            },
            Orientation::Deg270 => if clockwise {
                Orientation::Deg0
            } else {
                Orientation::Deg180
            },
        }
    }

    /// Advances the orientation one 90-degree step in the given direction.
    pub fn rotate(&self, clockwise: bool) -> (r: Orientation)
        ensures
            r == self.spec_rotate(clockwise),
    {
        match self {
            Orientation::Deg0 => if clockwise {
                Orientation::Deg90
            } else {
                Orientation::Deg270
            },
            Orientation::Deg90 => if clockwise {
                Orientation::Deg180
            } else {
                Orientation::Deg0
            },
            Orientation::Deg180 => if clockwise {
                Orientation::Deg270
            } else {
                Orientation::Deg90
            },
            Orientation::Deg270 => if clockwise {
                Orientation::Deg0
            } else {
                Orientation::Deg180
            },
        }
    }
}

/// The x component of a cell offset turned 90 degrees about the pivot.
pub open spec fn rot_x(x: int, y: int, clockwise: bool) -> int {
    if clockwise {
        -y
    } else {
        y
    }
}

/// The y component of a cell offset turned 90 degrees about the pivot.
pub open spec fn rot_y(x: int, y: int, clockwise: bool) -> int {
    if clockwise {
        x
    } else {
        -x
    }
}

/// A falling piece: its kind, its pivot in half-cell units, its orientation,
/// and the four occupied-cell offsets from the pivot, also in half-cell
/// units.
#[derive(Copy, Clone)]
pub struct Tetrimino {
    pub tile_type: TileType,
    pub pos: Vec2<i32>,
    pub orientation: Orientation,
    pub tiles: [Vec2<i32>; 4],
}

impl Tetrimino {
    /// Well-formedness: a real kind, offsets within the piece's 4x4 bounding
    /// box, a pivot near the board, and pivot/offset parities that agree so
    /// every absolute cell is exact.
    pub open spec fn wf(self) -> bool {
        &&& self.tile_type != TileType::Empty
        &&& -100 <= self.pos.x <= 100
        &&& -100 <= self.pos.y <= 100
        &&& self.pos.x % 2 == self.pos.y % 2
        &&& forall|i: int|
            0 <= i < 4 ==> {
                let t = #[trigger] self.tiles@[i];
                &&& -4 <= t.x <= 4
                &&& -4 <= t.y <= 4
                &&& (self.pos.x + t.x) % 2 == 0
                &&& (self.pos.y + t.y) % 2 == 0
            }
    }

    /// The absolute board column of the piece's `i`-th cell.
    pub open spec fn cell_x(self, i: int) -> int {
        (self.pos.x + self.tiles@[i].x) / 2
    }

    /// The absolute board row of the piece's `i`-th cell.
    pub open spec fn cell_y(self, i: int) -> int {
        (self.pos.y + self.tiles@[i].y) / 2
    }

    /// The four absolute cells `(column, row)` the piece occupies.
    pub open spec fn abs_cells(self) -> Seq<(int, int)> {
        Seq::new(4, |i: int| (self.cell_x(i), self.cell_y(i)))
    }

    /// Whether the piece occupies the absolute cell `(x, y)`.
    pub open spec fn covers(self, x: int, y: int) -> bool {
        exists|i: int| 0 <= i < 4 && self.cell_x(i) == x && self.cell_y(i) == y
    }

    /// Every cell of the piece lies on the board.
    pub open spec fn cells_in_bounds(self) -> bool {
        forall|i: int|
            0 <= i < 4 ==> 0 <= #[trigger] self.cell_x(i) < crate::settings::MAP_WIDTH && 0
                <= self.cell_y(i) < crate::settings::MAP_HEIGHT
    }

    /// The absolute cells the piece would occupy after a pivot shift of
    /// `(dx, dy)` half-cells.
    pub open spec fn shifted_cells(self, dx: int, dy: int) -> Seq<(int, int)> {
        Seq::new(
            4,
            |i: int|
                (
                    (self.pos.x + dx + self.tiles@[i].x) / 2,
                    (self.pos.y + dy + self.tiles@[i].y) / 2,
                ),
        )
    }

    /// The spawn state of a freshly drawn piece of the given kind.
    pub fn new(tile_type: TileType) -> (r: Tetrimino)
        requires
            tile_type != TileType::Empty,
        ensures
            r.wf(),
            r.cells_in_bounds(),
            r.tile_type == tile_type,
            r.orientation == Orientation::Deg0,
            spawn_shape(tile_type, r.pos, r.tiles@),
    {
        match tile_type {
            TileType::I => Tetrimino::new_i(),
            TileType::O => Tetrimino::new_o(),
            TileType::T => Tetrimino::new_t(),
            TileType::S => Tetrimino::new_s(),
            TileType::Z => Tetrimino::new_z(),
            TileType::J => Tetrimino::new_j(),
            TileType::L => Tetrimino::new_l(),
            TileType::Empty => vstd::pervasive::unreached(),
        }
    }

    fn new_i() -> (r: Tetrimino)
        ensures
            r.wf(),
            r.cells_in_bounds(),
            r.tile_type == TileType::I,
            r.orientation == Orientation::Deg0,
            spawn_shape(TileType::I, r.pos, r.tiles@),
    {
        Tetrimino {
            tile_type: TileType::I,
            pos: Vec2::new(9, 3),
            orientation: Orientation::Deg0,
            tiles: [Vec2::new(3, -1), Vec2::new(1, -1), Vec2::new(-1, -1), Vec2::new(-3, -1)],
        }
    }

    fn new_o() -> (r: Tetrimino)
        ensures
            r.wf(),
            r.cells_in_bounds(),
            r.tile_type == TileType::O,
            r.orientation == Orientation::Deg0,
            spawn_shape(TileType::O, r.pos, r.tiles@),
    {
        Tetrimino {
            tile_type: TileType::O,
            pos: Vec2::new(9, 1),
            orientation: Orientation::Deg0,
            tiles: [Vec2::new(-1, -1), Vec2::new(-1, 1), Vec2::new(1, -1), Vec2::new(1, 1)],
        }
    }

    fn new_t() -> (r: Tetrimino)
        ensures
            r.wf(),
            r.cells_in_bounds(),
            r.tile_type == TileType::T,
            r.orientation == Orientation::Deg0,
            spawn_shape(TileType::T, r.pos, r.tiles@),
    {
        Tetrimino {
            tile_type: TileType::T,
            pos: Vec2::new(8, 2),
            orientation: Orientation::Deg0,
            tiles: [Vec2::new(-2, 0), Vec2::new(2, 0), Vec2::new(0, 0), Vec2::new(0, -2)],
        }
    }

    fn new_s() -> (r: Tetrimino)
        ensures
            r.wf(),
            r.cells_in_bounds(),
            r.tile_type == TileType::S,
            r.orientation == Orientation::Deg0,
            spawn_shape(TileType::S, r.pos, r.tiles@),
    {
        Tetrimino {
            tile_type: TileType::S,
            pos: Vec2::new(8, 2),
            orientation: Orientation::Deg0,
            tiles: [Vec2::new(-2, 0), Vec2::new(0, 0), Vec2::new(0, -2), Vec2::new(2, -2)],
        }
    }

    fn new_z() -> (r: Tetrimino)
        ensures
            r.wf(),
            r.cells_in_bounds(),
            r.tile_type == TileType::Z,
            r.orientation == Orientation::Deg0,
            spawn_shape(TileType::Z, r.pos, r.tiles@),
    {
        Tetrimino {
            tile_type: TileType::Z,
            pos: Vec2::new(8, 2),
            orientation: Orientation::Deg0,
            tiles: [Vec2::new(-2, -2), Vec2::new(0, 0), Vec2::new(0, -2), Vec2::new(2, 0)],
        }
    }

    fn new_j() -> (r: Tetrimino)
        ensures
            r.wf(),
            r.cells_in_bounds(),
            r.tile_type == TileType::J,
            r.orientation == Orientation::Deg0,
            spawn_shape(TileType::J, r.pos, r.tiles@),
    {
        Tetrimino {
            tile_type: TileType::J,
            pos: Vec2::new(8, 2),
            orientation: Orientation::Deg0,
            tiles: [Vec2::new(0, 0), Vec2::new(-2, 0), Vec2::new(2, 0), Vec2::new(-2, -2)],
        }
    }

    fn new_l() -> (r: Tetrimino)
        ensures
            r.wf(),
            r.cells_in_bounds(),
            r.tile_type == TileType::L,
            r.orientation == Orientation::Deg0,
            spawn_shape(TileType::L, r.pos, r.tiles@),
    {
        Tetrimino {
            tile_type: TileType::L,
            pos: Vec2::new(8, 2),
            orientation: Orientation::Deg0,
            tiles: [Vec2::new(0, 0), Vec2::new(-2, 0), Vec2::new(2, 0), Vec2::new(2, -2)],
        }
    }

    /// Offsets the pivot by `(x_off, y_off)` half-cells.  When the new cells
    /// are collision-free the move commits in full; otherwise the position
    /// rolls back and nothing at all has changed.
    pub fn mov(&mut self, map: &Board, x_off: i32, y_off: i32) -> (r: bool)
        requires
            old(self).wf(),
            map.wf(),
            -92 <= old(self).pos.x <= 92,
            -92 <= old(self).pos.y <= 92,
            x_off % 2 == 0,
            y_off % 2 == 0,
            -8 <= x_off <= 8,
            -8 <= y_off <= 8,
        ensures
            final(self).wf(),
            final(self).tile_type == old(self).tile_type,
            final(self).orientation == old(self).orientation,
            final(self).tiles == old(self).tiles,
            r ==> final(self).pos.x == old(self).pos.x + x_off && final(self).pos.y == old(
                self,
            ).pos.y + y_off && !map.cells_collide(final(self).abs_cells()),
            !r ==> *final(self) == *old(self) && map.cells_collide(
                old(self).shifted_cells(x_off as int, y_off as int),
            ),
    {
        self.pos.x = self.pos.x + x_off;
        self.pos.y = self.pos.y + y_off;
        if map.collision(self) {
            proof {
                assert(self.abs_cells() =~= old(self).shifted_cells(x_off as int, y_off as int));
            }
            self.pos.x = self.pos.x - x_off;
            self.pos.y = self.pos.y - y_off;
            return false;
        }
        true
    }

    /// Turns the piece 90 degrees.  The O piece never rotates and reports
    /// success unchanged, whatever the wall-kick setting.  Any other piece
    /// commits the turn exactly when the turned cells are collision-free
    /// where they stand or, with wall kicks enabled, at the first fitting
    /// offset of its kick table; a failed rotation leaves the piece exactly
    /// as it was.
    #[verifier::rlimit(100)]
    pub fn rotate(&mut self, wall_kicks_enabled: bool, map: &Board, right: bool) -> (r: bool)
        requires
            old(self).wf(),
            map.wf(),
            -88 <= old(self).pos.x <= 88,
            -88 <= old(self).pos.y <= 88,
        ensures
            final(self).wf(),
            old(self).tile_type == TileType::O ==> r == true && *final(self) == *old(self),
            old(self).tile_type != TileType::O ==> match spec_rotate_outcome(
                *old(self),
                *map,
                wall_kicks_enabled,
                right,
            ) {
                Some(off) => r == true && is_rotated_by(*old(self), *final(self), right, off)
                    && !map.cells_collide(final(self).abs_cells()),
                None => r == false && *final(self) == *old(self),
            },
    {
        if self.tile_type == TileType::O {
            return true;
        }
        let ghost t0 = *self;
        let new_tiles = [
            rot_cell(self.tiles[0], right),
            rot_cell(self.tiles[1], right),
            rot_cell(self.tiles[2], right),
            rot_cell(self.tiles[3], right),
        ];
        let mut new_tet = Tetrimino {
            tile_type: self.tile_type,
            pos: self.pos,
            orientation: self.orientation.rotate(right),
            tiles: new_tiles,
        };
        proof {
            assert(is_rotated_by(t0, new_tet, right, (0int, 0int)));
            lemma_rotated_wf(t0, new_tet, right);
            assert(new_tet.abs_cells() =~= rotated_cells(t0, right, 0, 0));
        }
        if map.collision(&new_tet) {
            if wall_kicks_enabled {
                let is_i = self.tile_type == TileType::I;
                let mut i: usize = 0;
                while i < 5
                    invariant
                        t0 == *self,
                        t0 == *old(self),
                        wall_kicks_enabled,
                        map.cells_collide(rotated_cells(t0, right, 0, 0)),
                        t0.wf(),
                        map.wf(),
                        t0.tile_type != TileType::O,
                        -88 <= t0.pos.x <= 88,
                        -88 <= t0.pos.y <= 88,
                        is_i == (t0.tile_type == TileType::I),
                        i <= 5,
                        new_tet.wf(),
                        new_tet.pos == t0.pos,
                        is_rotated_by(t0, new_tet, right, (0int, 0int)),
                        spec_first_kick(t0, *map, right, 0) == spec_first_kick(
                            t0,
                            *map,
                            right,
                            i as int,
                        ),
                    decreases 5 - i,
                {
                    proof {
                        lemma_kick_bounds(is_i, right, t0.orientation, i as int);
                    }
                    let off = kick_offset(is_i, right, self.orientation, i);
                    let committed = new_tet.mov(map, off.0, off.1);
                    if committed {
                        proof {
                            assert(new_tet.abs_cells() =~= rotated_cells(
                                t0,
                                right,
                                off.0 as int,
                                off.1 as int,
                            ));
                            assert(spec_first_kick(t0, *map, right, i as int) == Some(
                                (off.0 as int, off.1 as int),
                            ));
                            assert(is_rotated_by(t0, new_tet, right, (off.0 as int, off.1 as int)));
                        }
                        *self = new_tet;
                        return true;
                    }
                    proof {
                        assert(new_tet.shifted_cells(off.0 as int, off.1 as int)
                            =~= rotated_cells(t0, right, off.0 as int, off.1 as int));
                        assert(spec_first_kick(t0, *map, right, i as int) == spec_first_kick(
                            t0,
                            *map,
                            right,
                            i as int + 1,
                        ));
                    }
                    i = i + 1;
                }
                proof {
                    assert(spec_first_kick(t0, *map, right, 5) is None);
                }
                return false;
            }
            return false;
        }
        *self = new_tet;
        true
    }
}

/// A piece whose cells all lie on the board has its pivot close to it.
pub proof fn lemma_pos_bounds(t: Tetrimino)
    requires
        t.wf(),
        t.cells_in_bounds(),
    ensures
        -4 <= t.pos.x <= 22,
        -4 <= t.pos.y <= 46,
{
    assert(0 <= t.cell_x(0) < crate::settings::MAP_WIDTH && 0 <= t.cell_y(0)
        < crate::settings::MAP_HEIGHT);
    let ax = t.pos.x + t.tiles@[0].x;
    let ay = t.pos.y + t.tiles@[0].y;
    vstd::arithmetic::div_mod::lemma_fundamental_div_mod(ax as int, 2);
    vstd::arithmetic::div_mod::lemma_fundamental_div_mod(ay as int, 2);
}

/// Rotation totality: four quarter turns in the same direction, each
/// committed without any wall-kick shift, restore a piece's cell offsets,
/// its orientation, and its pivot, for every kind but O (which never turns
/// in the first place).
pub proof fn lemma_rotation_totality(
    t0: Tetrimino,
    t1: Tetrimino,
    t2: Tetrimino,
    t3: Tetrimino,
    t4: Tetrimino,
    right: bool,
)
    requires
        t0.wf(),
        t0.tile_type != TileType::O,
        is_rotated_by(t0, t1, right, (0int, 0int)),
        is_rotated_by(t1, t2, right, (0int, 0int)),
        is_rotated_by(t2, t3, right, (0int, 0int)),
        is_rotated_by(t3, t4, right, (0int, 0int)),
    ensures
        forall|i: int|
            0 <= i < 4 ==> (#[trigger] t4.tiles@[i]).x == t0.tiles@[i].x && t4.tiles@[i].y
                == t0.tiles@[i].y,
        t4.orientation == t0.orientation,
        t4.pos == t0.pos,
        t4.tile_type == t0.tile_type,
{
}

/// The five wall-kick pivot offsets (in half-cell units) tried, in order,
/// for the given piece category (the I piece has its own table), rotation
/// direction, and originating orientation.  These are the Super Rotation
/// System offsets, doubled.
pub open spec fn spec_kick_row(is_i: bool, right: bool, o: Orientation) -> Seq<(int, int)> {
    if is_i {
        if right {
            match o {
                Orientation::Deg0 => seq![(0, 0), (-4, 0), (2, 0), (-4, -2), (2, 4)],
                Orientation::Deg90 => seq![(0, 0), (-2, 0), (4, 0), (-2, 4), (4, -2)],
                Orientation::Deg180 => seq![(0, 0), (4, 0), (-2, 0), (4, 2), (-2, -4)],
                Orientation::Deg270 => seq![(0, 0), (2, 0), (-4, 0), (2, -4), (-4, 2)],
            }
        } else {
            match o {
                Orientation::Deg0 => seq![(0, 0), (4, 0), (-2, 0), (4, 2), (-2, -4)],
                Orientation::Deg90 => seq![(0, 0), (2, 0), (-4, 0), (2, -4), (-4, 2)],
                Orientation::Deg180 => seq![(0, 0), (-4, 0), (2, 0), (-4, -2), (2, 4)],
                Orientation::Deg270 => seq![(0, 0), (-2, 0), (4, 0), (-2, 4), (4, -2)],
            }
        }
    } else {
        if right {
            match o {
                Orientation::Deg0 => seq![(0, 0), (-2, 0), (-2, 2), (0, -4), (-2, -4)],
                Orientation::Deg90 => seq![(0, 0), (2, 0), (2, -2), (0, 4), (2, 4)],
                Orientation::Deg180 => seq![(0, 0), (2, 0), (2, 2), (0, -4), (2, -4)],
                Orientation::Deg270 => seq![(0, 0), (-2, 0), (-2, -2), (0, 4), (-2, 4)],
            }
        } else {
            match o {
                Orientation::Deg0 => seq![(0, 0), (2, 0), (2, -2), (0, 4), (2, 4)],
                Orientation::Deg90 => seq![(0, 0), (-2, 0), (-2, 2), (0, -4), (-2, -4)],
                Orientation::Deg180 => seq![(0, 0), (-2, 0), (-2, -2), (0, 4), (-2, 4)],
                Orientation::Deg270 => seq![(0, 0), (2, 0), (2, 2), (0, -4), (2, -4)],
            }
        }
    }
}

/// The `i`-th wall-kick offset of the selected table row.
pub open spec fn spec_kick(is_i: bool, right: bool, o: Orientation, i: int) -> (int, int) {
    spec_kick_row(is_i, right, o)[i]
}

/// Every kick offset is even (a whole-cell shift) and at most two cells.
proof fn lemma_kick_bounds(is_i: bool, right: bool, o: Orientation, i: int)
    requires
        0 <= i < 5,
    ensures
        spec_kick(is_i, right, o, i).0 % 2 == 0,
        spec_kick(is_i, right, o, i).1 % 2 == 0,
        -4 <= spec_kick(is_i, right, o, i).0 <= 4,
        -4 <= spec_kick(is_i, right, o, i).1 <= 4,
{
    match o {
        Orientation::Deg0 => {},
        Orientation::Deg90 => {},
        Orientation::Deg180 => {},
        Orientation::Deg270 => {},
    }
}

/// Looks up the `i`-th wall-kick offset, in half-cell units.
fn kick_offset(is_i: bool, right: bool, o: Orientation, i: usize) -> (r: (i32, i32))
    requires
        i < 5,
    ensures
        (r.0 as int, r.1 as int) == spec_kick(is_i, right, o, i as int),
{
    let row: [(i32, i32); 5] = if is_i {
        if right {
            match o {
                Orientation::Deg0 => [(0, 0), (-4, 0), (2, 0), (-4, -2), (2, 4)],
                Orientation::Deg90 => [(0, 0), (-2, 0), (4, 0), (-2, 4), (4, -2)],
                Orientation::Deg180 => [(0, 0), (4, 0), (-2, 0), (4, 2), (-2, -4)],
                Orientation::Deg270 => [(0, 0), (2, 0), (-4, 0), (2, -4), (-4, 2)],
            }
        } else {
            match o {
                Orientation::Deg0 => [(0, 0), (4, 0), (-2, 0), (4, 2), (-2, -4)],
                Orientation::Deg90 => [(0, 0), (2, 0), (-4, 0), (2, -4), (-4, 2)],
                Orientation::Deg180 => [(0, 0), (-4, 0), (2, 0), (-4, -2), (2, 4)],
                Orientation::Deg270 => [(0, 0), (-2, 0), (4, 0), (-2, 4), (4, -2)],
            }
        }
    } else {
        if right {
            match o {
                Orientation::Deg0 => [(0, 0), (-2, 0), (-2, 2), (0, -4), (-2, -4)],
                Orientation::Deg90 => [(0, 0), (2, 0), (2, -2), (0, 4), (2, 4)],
                Orientation::Deg180 => [(0, 0), (2, 0), (2, 2), (0, -4), (2, -4)],
                Orientation::Deg270 => [(0, 0), (-2, 0), (-2, -2), (0, 4), (-2, 4)],
            }
        } else {
            match o {
                Orientation::Deg0 => [(0, 0), (2, 0), (2, -2), (0, 4), (2, 4)],
                Orientation::Deg90 => [(0, 0), (-2, 0), (-2, 2), (0, -4), (-2, -4)],
                Orientation::Deg180 => [(0, 0), (-2, 0), (-2, -2), (0, 4), (-2, 4)],
                Orientation::Deg270 => [(0, 0), (2, 0), (2, 2), (0, -4), (2, -4)],
            }
        }
    };
    row[i]
}

/// The absolute cells a piece would occupy after the 90-degree turn and a
/// pivot shift of `(dx, dy)` half-cells.
pub open spec fn rotated_cells(t: Tetrimino, right: bool, dx: int, dy: int) -> Seq<(int, int)> {
    Seq::new(
        4,
        |i: int|
            (
                (t.pos.x + dx + rot_x(t.tiles@[i].x as int, t.tiles@[i].y as int, right)) / 2,
                (t.pos.y + dy + rot_y(t.tiles@[i].x as int, t.tiles@[i].y as int, right)) / 2,
            ),
    )
}

/// The first wall-kick offset at index `i` or later whose shifted rotation
/// is collision-free, if any.
pub open spec fn spec_first_kick(t: Tetrimino, m: Board, right: bool, i: int) -> Option<(int, int)>
    decreases 5 - i,
{
    if i >= 5 {
        None
    } else {
        let o = spec_kick(t.tile_type == TileType::I, right, t.orientation, i);
        if !m.cells_collide(rotated_cells(t, right, o.0, o.1)) {
            Some(o)
        } else {
            spec_first_kick(t, m, right, i + 1)
        }
    }
}

/// The pivot shift a rotation attempt commits: none at all when the turned
/// piece fits where it stands, the first fitting wall-kick offset when kicks
/// are enabled, and `None` when the rotation fails.
pub open spec fn spec_rotate_outcome(t: Tetrimino, m: Board, wall_kicks_enabled: bool, right: bool)
    -> Option<(int, int)> {
    if !m.cells_collide(rotated_cells(t, right, 0, 0)) {
        Some((0int, 0int))
    } else if wall_kicks_enabled {
        spec_first_kick(t, m, right, 0)
    } else {
        None
    }
}

/// `u` is `t` turned 90 degrees in the given direction with its pivot
/// shifted by `off` half-cells.
pub open spec fn is_rotated_by(t: Tetrimino, u: Tetrimino, right: bool, off: (int, int)) -> bool {
    &&& u.tile_type == t.tile_type
    &&& u.orientation == t.orientation.spec_rotate(right)
    &&& u.pos.x == t.pos.x + off.0
    &&& u.pos.y == t.pos.y + off.1
    &&& forall|i: int|
        0 <= i < 4 ==> (#[trigger] u.tiles@[i]).x == rot_x(
            t.tiles@[i].x as int,
            t.tiles@[i].y as int,
            right,
        ) && u.tiles@[i].y == rot_y(t.tiles@[i].x as int, t.tiles@[i].y as int, right)
}

/// A quarter turn committed in place preserves well-formedness: the offsets
/// stay within the bounding box and the parities still agree, because the
/// two pivot components share one parity.
proof fn lemma_rotated_wf(t: Tetrimino, u: Tetrimino, right: bool)
    requires
        t.wf(),
        u.tile_type == t.tile_type,
        u.pos == t.pos,
        is_rotated_by(t, u, right, (0int, 0int)),
        u.tiles@.len() == 4,
    ensures
        u.wf(),
{
    assert forall|i: int| 0 <= i < 4 implies {
        let c = #[trigger] u.tiles@[i];
        &&& -4 <= c.x <= 4
        &&& -4 <= c.y <= 4
        &&& (u.pos.x + c.x) % 2 == 0
        &&& (u.pos.y + c.y) % 2 == 0
    } by {
        let a = t.tiles@[i];
        assert(-4 <= a.x <= 4 && -4 <= a.y <= 4);
        assert((t.pos.x + a.x) % 2 == 0 && (t.pos.y + a.y) % 2 == 0);
        assert((t.pos.x + a.y) % 2 == 0 && (t.pos.x - a.y) % 2 == 0 && (t.pos.y + a.x) % 2 == 0
            && (t.pos.y - a.x) % 2 == 0) by (nonlinear_arith)
            requires
                (t.pos.x + a.x) % 2 == 0,
                (t.pos.y + a.y) % 2 == 0,
                t.pos.x % 2 == t.pos.y % 2,
                -100 <= t.pos.x <= 100,
                -100 <= t.pos.y <= 100,
                -4 <= a.x <= 4,
                -4 <= a.y <= 4,
        ;
    }
}

/// Turns one cell offset 90 degrees about the pivot.
fn rot_cell(c: Vec2<i32>, right: bool) -> (r: Vec2<i32>)
    requires
        -4 <= c.x <= 4,
        -4 <= c.y <= 4,
    ensures
        r.x as int == rot_x(c.x as int, c.y as int, right),
        r.y as int == rot_y(c.x as int, c.y as int, right),
{
    if right {
        Vec2::new(-c.y, c.x)
    } else {
        Vec2::new(c.y, -c.x)
    }
}

/// The spawn pivot and cell offsets of each piece kind, in half-cell units.
pub open spec fn spawn_shape(kind: TileType, pos: Vec2<i32>, tiles: Seq<Vec2<i32>>) -> bool {
    &&& tiles.len() == 4
    &&& match kind {
        TileType::I => pos.x == 9 && pos.y == 3 && tiles[0].x == 3 && tiles[0].y == -1
            && tiles[1].x == 1 && tiles[1].y == -1 && tiles[2].x == -1 && tiles[2].y == -1
            && tiles[3].x == -3 && tiles[3].y == -1,
        TileType::O => pos.x == 9 && pos.y == 1 && tiles[0].x == -1 && tiles[0].y == -1
            && tiles[1].x == -1 && tiles[1].y == 1 && tiles[2].x == 1 && tiles[2].y == -1
            && tiles[3].x == 1 && tiles[3].y == 1,
        TileType::T => pos.x == 8 && pos.y == 2 && tiles[0].x == -2 && tiles[0].y == 0
            && tiles[1].x == 2 && tiles[1].y == 0 && tiles[2].x == 0 && tiles[2].y == 0
            && tiles[3].x == 0 && tiles[3].y == -2,
        TileType::S => pos.x == 8 && pos.y == 2 && tiles[0].x == -2 && tiles[0].y == 0
            && tiles[1].x == 0 && tiles[1].y == 0 && tiles[2].x == 0 && tiles[2].y == -2
            && tiles[3].x == 2 && tiles[3].y == -2,
        TileType::Z => pos.x == 8 && pos.y == 2 && tiles[0].x == -2 && tiles[0].y == -2
            && tiles[1].x == 0 && tiles[1].y == 0 && tiles[2].x == 0 && tiles[2].y == -2
            && tiles[3].x == 2 && tiles[3].y == 0,
        TileType::J => pos.x == 8 && pos.y == 2 && tiles[0].x == 0 && tiles[0].y == 0
            && tiles[1].x == -2 && tiles[1].y == 0 && tiles[2].x == 2 && tiles[2].y == 0
            && tiles[3].x == -2 && tiles[3].y == -2,
        TileType::L => pos.x == 8 && pos.y == 2 && tiles[0].x == 0 && tiles[0].y == 0
            && tiles[1].x == -2 && tiles[1].y == 0 && tiles[2].x == 2 && tiles[2].y == 0
            && tiles[3].x == 2 && tiles[3].y == -2,
        TileType::Empty => false,
    }
}

} // verus!
