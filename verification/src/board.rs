//! The board: a fixed grid of tiles, the collision query, the
//! line-completion scan, and compaction after completed lines.

use vstd::prelude::*;
use vstd::pervasive::VecAdditionalExecFns;

use crate::settings::{MAP_HEIGHT, MAP_TILE_COUNT, MAP_WIDTH};
use crate::tetrimino::{Tetrimino, TileType};

verus! {

/// Row indices found complete by a scan of the board, bottom-most row first,
/// with a sentinel `0` appended whenever any line was found so that the
/// index arithmetic of the compaction is uniform.
pub struct CompleteLines {
    data: Vec<usize>,
}

impl View for CompleteLines {
    type V = Seq<int>;

    closed spec fn view(&self) -> Seq<int> {
        self.data@.map_values(|v: usize| v as int)
    }
}

impl CompleteLines {
    /// An empty list.
    pub fn new() -> (r: CompleteLines)
        ensures
            r@ == Seq::<int>::empty(),
    {
        let r = CompleteLines { data: Vec::new() };
        proof {
            assert(r@ =~= Seq::<int>::empty());
        }
        r
    }

    /// True when no entry (not even the sentinel) is present.
    pub fn is_empty(&self) -> (r: bool)
        ensures
            r == (self@.len() == 0),
    {
        self.data.is_empty()
    }

    /// The number of completed lines recorded: one less than the raw entry
    /// count, since a non-empty list carries the trailing sentinel.
    pub fn len(&self) -> (r: usize)
        ensures
            r == if self@.len() == 0 {
                0int
            } else {
                self@.len() - 1
            },
    {
        if self.data.is_empty() {
            0
        } else {
            self.data.len() - 1
        }
    }

    /// Appends a row index (or the sentinel).
    pub fn push(&mut self, line: usize)
        ensures
            final(self)@ == old(self)@ + seq![line as int],
    {
        self.data.push(line);
        proof {
            assert(final(self)@ =~= old(self)@ + seq![line as int]);
        }
    }

    /// The raw entry at position `index`; the sentinel is addressable too.
    pub fn index(&self, index: usize) -> (r: usize)
        requires
            index < self@.len(),
        ensures
            r as int == self@[index as int],
    {
        self.data[index]
    }
}

/// Well-formed line list: either empty, or the completed rows in strictly
/// descending order followed by the sentinel `0`.
pub open spec fn lines_wf(s: Seq<int>) -> bool {
    ||| s.len() == 0
    ||| {
        &&& s.len() >= 2
        &&& s[s.len() - 1] == 0
        &&& forall|i: int| 0 <= i < s.len() - 2 ==> #[trigger] s[i] > s[i + 1]
        &&& forall|i: int| 0 <= i < s.len() - 1 ==> 0 <= #[trigger] s[i] < MAP_HEIGHT
    }
}

/// The number of completed lines a well-formed line list records (the
/// sentinel does not count).
pub open spec fn lines_count(s: Seq<int>) -> int {
    if s.len() == 0 {
        0
    } else {
        s.len() - 1
    }
}

/// The row whose contents land in row `z` once the runs of rows between the
/// `i` bottom-most completed lines have been shifted down: a row strictly
/// between two completed lines moves down by one extra step for every
/// completed line below it; rows above the top-most completed line, and
/// every row when no line completed, stay where they are.
pub open spec fn compaction_src(lines: Seq<int>, i: int, z: int) -> int
    decreases i,
{
    if i <= 0 {
        z
    } else if lines[i] + i <= z < lines[i - 1] + i {
        z - i
    } else {
        compaction_src(lines, i - 1, z)
    }
}

/// What compaction leaves behind: the vacated top rows are empty, every
/// other row holds the contents of its source row.  Kept opaque: callers
/// pass the fact along and reveal it only where cell-level detail matters.
#[verifier::opaque]
pub open spec fn cleared_rel(pre: Board, lines: Seq<int>, post: Board) -> bool {
    &&& forall|x: int, z: int|
        0 <= x < MAP_WIDTH && 0 <= z < lines_count(lines) ==> post.spec_at(x, z)
            == TileType::Empty
    &&& forall|x: int, z: int|
        0 <= x < MAP_WIDTH && lines_count(lines) <= z < MAP_HEIGHT ==> post.spec_at(x, z)
            == pre.spec_at(x, compaction_src(lines, lines.len() - 1, z))
}

/// A compaction source row never lies below the row it fills.
pub proof fn lemma_compaction_src_range(s: Seq<int>, i: int, z: int)
    requires
        lines_wf(s),
        s.len() >= 2,
        i <= s.len() - 1,
        0 <= z,
    ensures
        0 <= compaction_src(s, i, z) <= z,
    decreases i,
{
    if i > 0 {
        if s[i] + i <= z < s[i - 1] + i {
        } else {
            lemma_compaction_src_range(s, i - 1, z);
        }
    }
}

/// Entries of a well-formed line list drop by at least one per step.
proof fn lemma_lines_desc(s: Seq<int>, i: int, j: int)
    requires
        lines_wf(s),
        s.len() >= 2,
        0 <= i <= j < s.len() - 1,
    ensures
        s[j] + (j - i) <= s[i],
    decreases j - i,
{
    if i < j {
        lemma_lines_desc(s, i, j - 1);
    }
}

/// A sequence that falls at every step falls across any span.
proof fn lemma_desc_chain(s: Seq<int>, i: int, j: int)
    requires
        forall|k: int| 0 <= k < s.len() - 1 ==> #[trigger] s[k] > s[k + 1],
        0 <= i < j < s.len(),
    ensures
        s[i] > s[j],
    decreases j - i,
{
    if i + 1 < j {
        lemma_desc_chain(s, i + 1, j);
    }
}

/// Rows below every destination band keep their identity source.
proof fn lemma_compaction_src_identity(s: Seq<int>, i: int, z: int)
    requires
        lines_wf(s),
        s.len() >= 2,
        0 <= i < s.len() - 1,
        z < s[i] + i,
    ensures
        compaction_src(s, i, z) == z,
    decreases i,
{
    if i > 0 {
        lemma_compaction_src_identity(s, i - 1, z);
    }
}

/// The board: `MAP_WIDTH` x `MAP_HEIGHT` tiles in row-major order.
pub struct Board {
    tiles: Vec<TileType>,
}

impl Board {
    /// The grid always holds exactly one tile per cell.
    pub closed spec fn wf(self) -> bool {
        self.tiles@.len() == MAP_TILE_COUNT
    }

    /// The tile at column `x`, row `y`.
    pub closed spec fn spec_at(self, x: int, y: int) -> TileType {
        self.tiles@[y * MAP_WIDTH + x]
    }

    /// True when the absolute cell `c` (column, row) lies outside the board
    /// or on an occupied tile.
    pub open spec fn cell_collides(self, c: (int, int)) -> bool {
        ||| c.0 < 0
        ||| c.0 >= MAP_WIDTH
        ||| c.1 < 0
        ||| c.1 >= MAP_HEIGHT
        ||| self.spec_at(c.0, c.1) != TileType::Empty
    }

    /// True when any of the given absolute cells collides.
    pub open spec fn cells_collide(self, cs: Seq<(int, int)>) -> bool {
        exists|i: int| 0 <= i < cs.len() && self.cell_collides(#[trigger] cs[i])
    }

    /// True when every cell of row `y` is occupied.
    pub open spec fn row_full(self, y: int) -> bool {
        forall|x: int| 0 <= x < MAP_WIDTH ==> self.spec_at(x, y) != TileType::Empty
    }

    /// The full rows among rows `y .. MAP_HEIGHT`, listed bottom-most first.
    pub open spec fn full_rows_down(self, y: int) -> Seq<int>
        decreases MAP_HEIGHT - y,
    {
        if y >= MAP_HEIGHT {
            Seq::empty()
        } else {
            self.full_rows_down(y + 1) + if self.row_full(y) {
                seq![y]
            } else {
                Seq::empty()
            }
        }
    }

    /// A board with every cell empty.
    pub fn new() -> (r: Board)
        ensures
            r.wf(),
            forall|x: int, y: int|
                0 <= x < MAP_WIDTH && 0 <= y < MAP_HEIGHT ==> r.spec_at(x, y) == TileType::Empty,
    {
        let mut tiles: Vec<TileType> = Vec::new();
        let mut i: usize = 0;
        while i < MAP_TILE_COUNT
            invariant
                i <= MAP_TILE_COUNT,
                tiles@.len() == i,
                forall|k: int| 0 <= k < i ==> tiles@[k] == TileType::Empty,
            decreases MAP_TILE_COUNT - i,
        {
            tiles.push(TileType::Empty);
            i = i + 1;
        }
        let r = Board { tiles };
        proof {
            assert forall|x: int, y: int|
                0 <= x < MAP_WIDTH && 0 <= y < MAP_HEIGHT implies r.spec_at(x, y)
                == TileType::Empty by {
                assert(0 <= y * MAP_WIDTH + x < MAP_TILE_COUNT) by (nonlinear_arith)
                    requires
                        0 <= x < MAP_WIDTH,
                        0 <= y < MAP_HEIGHT,
                        MAP_WIDTH == 10,
                        MAP_HEIGHT == 22,
                        MAP_TILE_COUNT == 220,
                ;
            }
        }
        r
    }

    /// Reads the tile at `(x, y)`.
    pub fn get(&self, x: usize, y: usize) -> (r: TileType)
        requires
            self.wf(),
            x < MAP_WIDTH,
            y < MAP_HEIGHT,
        ensures
            r == self.spec_at(x as int, y as int),
    {
        proof {
            lemma_cell_index_bounds(x as int, y as int);
        }
        self.tiles[MAP_WIDTH * y + x]
    }

    /// Whether the piece, at its current position, lies partly outside the
    /// board or over an occupied cell.  Coordinates left of or above the
    /// board are rejected by an explicit signed comparison before any
    /// unsigned arithmetic happens.
    pub fn collision(&self, tet: &Tetrimino) -> (r: bool)
        requires
            self.wf(),
            tet.wf(),
        ensures
            r == self.cells_collide(tet.abs_cells()),
    {
        let mut i: usize = 0;
        while i < 4
            invariant
                self.wf(),
                tet.wf(),
                i <= 4,
                forall|j: int| 0 <= j < i ==> !self.cell_collides(#[trigger] tet.abs_cells()[j]),
            decreases 4 - i,
        {
            let t = tet.tiles[i];
            let cx2: i32 = tet.pos.x + t.x;
            let cy2: i32 = tet.pos.y + t.y;
            if cx2 < 0 || cy2 < 0 {
                proof {
                    assert(self.cell_collides(tet.abs_cells()[i as int]));
                }
                return true;
            }
            let ux = (cx2 as usize) / 2;
            let uy = (cy2 as usize) / 2;
            assert(ux == tet.cell_x(i as int) && uy == tet.cell_y(i as int));
            if ux >= MAP_WIDTH || uy >= MAP_HEIGHT {
                proof {
                    assert(self.cell_collides(tet.abs_cells()[i as int]));
                }
                return true;
            }
            if self.get(ux, uy) != TileType::Empty {
                proof {
                    assert(self.cell_collides(tet.abs_cells()[i as int]));
                }
                return true;
            }
            proof {
                assert(!self.cell_collides(tet.abs_cells()[i as int]));
            }
            i = i + 1;
        }
        proof {
            assert(forall|j: int| 0 <= j < 4 ==> !self.cell_collides(#[trigger] tet.abs_cells()[j]));
        }
        false
    }

    /// Stamps a locked piece into the grid: each of its four cells takes on
    /// the piece's kind (an already occupied cell is simply overwritten),
    /// every other cell keeps its tile.
    pub fn apply(&mut self, tet: &Tetrimino)
        requires
            old(self).wf(),
            tet.wf(),
            tet.cells_in_bounds(),
        ensures
            final(self).wf(),
            forall|x: int, y: int|
                0 <= x < MAP_WIDTH && 0 <= y < MAP_HEIGHT ==> final(self).spec_at(x, y) == (
                if tet.covers(x, y) {
                    tet.tile_type
                } else {
                    old(self).spec_at(x, y)
                }),
    {
        let mut i: usize = 0;
        while i < 4
            invariant
                self.wf(),
                tet.wf(),
                tet.cells_in_bounds(),
                i <= 4,
                forall|x: int, y: int|
                    0 <= x < MAP_WIDTH && 0 <= y < MAP_HEIGHT ==> self.spec_at(x, y) == (
                    if (exists|j: int| 0 <= j < i && tet.cell_x(j) == x && tet.cell_y(j) == y) {
                        tet.tile_type
                    } else {
                        old(self).spec_at(x, y)
                    }),
            decreases 4 - i,
        {
            proof {
                assert(0 <= tet.cell_x(i as int) < MAP_WIDTH && 0 <= tet.cell_y(i as int)
                    < MAP_HEIGHT);
            }
            let t = tet.tiles[i];
            let cx2: i32 = tet.pos.x + t.x;
            let cy2: i32 = tet.pos.y + t.y;
            let ux = (cx2 as usize) / 2;
            let uy = (cy2 as usize) / 2;
            assert(ux == tet.cell_x(i as int) && uy == tet.cell_y(i as int));
            self.set(ux, uy, tet.tile_type);
            i = i + 1;
        }
    }

    /// Scans the rows from the bottom of the board to the top and collects
    /// the indices of the complete ones, appending the sentinel `0` when any
    /// were found.
    pub fn complete_lines(&self) -> (r: CompleteLines)
        requires
            self.wf(),
        ensures
            r@ == self.full_rows_down(0) + (if self.full_rows_down(0).len() > 0 {
                seq![0int]
            } else {
                Seq::<int>::empty()
            }),
            lines_wf(r@),
    {
        let mut lines = CompleteLines::new();
        let mut y: usize = MAP_HEIGHT;
        while y > 0
            invariant
                self.wf(),
                y <= MAP_HEIGHT,
                lines@ == self.full_rows_down(y as int),
            decreases y,
        {
            y = y - 1;
            if self.row_complete(y) {
                lines.push(y);
            }
            proof {
                assert(lines@ =~= self.full_rows_down(y as int));
            }
        }
        if !lines.is_empty() {
            lines.push(0);
        }
        proof {
            self.lemma_full_rows_down_wf(0);
        }
        lines
    }

    /// Whether every cell of row `y` is occupied.
    fn row_complete(&self, y: usize) -> (r: bool)
        requires
            self.wf(),
            y < MAP_HEIGHT,
        ensures
            r == self.row_full(y as int),
    {
        let mut x: usize = 0;
        while x < MAP_WIDTH
            invariant
                self.wf(),
                y < MAP_HEIGHT,
                x <= MAP_WIDTH,
                forall|k: int| 0 <= k < x ==> self.spec_at(k, y as int) != TileType::Empty,
            decreases MAP_WIDTH - x,
        {
            if self.get(x, y) == TileType::Empty {
                return false;
            }
            x = x + 1;
        }
        true
    }

    /// The rows `full_rows_down` reports are strictly descending and lie on
    /// the board.
    proof fn lemma_full_rows_down_wf(self, y: int)
        ensures
            forall|i: int|
                0 <= i < self.full_rows_down(y).len() - 1 ==> #[trigger] self.full_rows_down(y)[i]
                    > self.full_rows_down(y)[i + 1],
            forall|i: int|
                0 <= i < self.full_rows_down(y).len() ==> y <= #[trigger] self.full_rows_down(
                    y,
                )[i] < MAP_HEIGHT,
        decreases MAP_HEIGHT - y,
    {
        if y < MAP_HEIGHT {
            self.lemma_full_rows_down_wf(y + 1);
            let rest = self.full_rows_down(y + 1);
            let whole = self.full_rows_down(y);
            if self.row_full(y) {
                assert(whole == rest + seq![y]);
                assert(whole.len() == rest.len() + 1);
                assert(forall|i: int| 0 <= i < rest.len() ==> whole[i] == rest[i]);
                assert(whole[whole.len() - 1] == y);
            } else {
                assert(whole =~= rest);
            }
        }
    }

    /// Compacts the board after the given completed lines: the rows between
    /// consecutive completed lines are shifted down, in the order the lines
    /// were discovered, and the vacated top rows are emptied.
    #[verifier::rlimit(60)]
    pub fn clear(&mut self, lines: &CompleteLines)
        requires
            old(self).wf(),
            lines_wf(lines@),
        ensures
            final(self).wf(),
            forall|x: int, z: int|
                0 <= x < MAP_WIDTH && 0 <= z < lines_count(lines@) ==> final(self).spec_at(x, z)
                    == TileType::Empty,
            forall|x: int, z: int|
                0 <= x < MAP_WIDTH && lines_count(lines@) <= z < MAP_HEIGHT ==> final(self).spec_at(
                    x,
                    z,
                ) == old(self).spec_at(x, compaction_src(lines@, lines@.len() - 1, z)),
            cleared_rel(*old(self), lines@, *final(self)),
    {
        proof {
            reveal(cleared_rel);
        }
        let ghost orig = *self;
        let count = lines.len();
        proof {
            if count > 0 {
                lemma_lines_desc(lines@, 0, count as int - 1);
            }
        }
        let mut i: usize = 0;
        while i < count
            invariant
                self.wf(),
                lines_wf(lines@),
                count == lines_count(lines@),
                count > 0 ==> lines@.len() == count + 1,
                count <= MAP_HEIGHT,
                i <= count,
                forall|x: int, z: int|
                    0 <= x < MAP_WIDTH && 0 <= z < MAP_HEIGHT ==> #[trigger] self.spec_at(x, z)
                        == orig.spec_at(x, compaction_src(lines@, i as int, z)),
            decreases count - i,
        {
            let top = lines.index(i);
            let bot = lines.index(i + 1);
            proof {
                lemma_lines_desc(lines@, i as int, count as int - 1);
                if i > 0 {
                    lemma_lines_desc(lines@, 0, i as int);
                }
            }
            assert(bot <= top && top < MAP_HEIGHT && top + i <= MAP_HEIGHT - 1);
            let mut y = top;
            while y > bot
                invariant
                    self.wf(),
                    lines_wf(lines@),
                    count == lines_count(lines@),
                    lines@.len() == count + 1,
                    i < count,
                    top as int == lines@[i as int],
                    bot as int == lines@[i as int + 1],
                    bot <= y <= top,
                    top + i <= MAP_HEIGHT - 1,
                    forall|x: int, z: int|
                        0 <= x < MAP_WIDTH && 0 <= z < MAP_HEIGHT ==> #[trigger] self.spec_at(x, z)
                            == orig.spec_at(
                            x,
                            if y + i + 1 <= z < top + i + 1 {
                                z - i - 1
                            } else {
                                compaction_src(lines@, i as int, z)
                            },
                        ),
                decreases y,
            {
                y = y - 1;
                proof {
                    lemma_compaction_src_identity(lines@, i as int, y as int);
                }
                let ghost pre = *self;
                self.copy_row(y, y + i + 1);
                proof {
                    assert forall|x: int, z: int|
                        0 <= x < MAP_WIDTH && 0 <= z < MAP_HEIGHT implies #[trigger] self.spec_at(
                        x,
                        z,
                    ) == orig.spec_at(
                        x,
                        if y + i + 1 <= z < top + i + 1 {
                            z - i - 1
                        } else {
                            compaction_src(lines@, i as int, z)
                        },
                    ) by {
                        if z == y + i + 1 {
                            assert(self.spec_at(x, z) == pre.spec_at(x, y as int));
                            assert(pre.spec_at(x, y as int) == orig.spec_at(
                                x,
                                compaction_src(lines@, i as int, y as int),
                            ));
                        } else {
                            assert(self.spec_at(x, z) == pre.spec_at(x, z));
                        }
                    }
                }
            }
            proof {
                assert forall|x: int, z: int|
                    0 <= x < MAP_WIDTH && 0 <= z < MAP_HEIGHT implies #[trigger] self.spec_at(x, z)
                    == orig.spec_at(x, compaction_src(lines@, i as int + 1, z)) by {
                    assert(compaction_src(lines@, i as int + 1, z) == if lines@[i as int + 1] + i
                        + 1 <= z < lines@[i as int] + i + 1 {
                        z - i - 1
                    } else {
                        compaction_src(lines@, i as int, z)
                    });
                }
            }
            i = i + 1;
        }
        let mut k: usize = 0;
        while k < count
            invariant
                self.wf(),
                count <= MAP_HEIGHT,
                k <= count,
                forall|x: int, z: int|
                    0 <= x < MAP_WIDTH && 0 <= z < k ==> #[trigger] self.spec_at(x, z)
                        == TileType::Empty,
                forall|x: int, z: int|
                    0 <= x < MAP_WIDTH && k <= z < MAP_HEIGHT ==> #[trigger] self.spec_at(x, z)
                        == orig.spec_at(x, compaction_src(lines@, count as int, z)),
            decreases count - k,
        {
            self.clear_row(k);
            k = k + 1;
        }
    }

    /// Copies the contents of row `src` over row `dst`.
    fn copy_row(&mut self, src: usize, dst: usize)
        requires
            old(self).wf(),
            src < MAP_HEIGHT,
            dst < MAP_HEIGHT,
            src != dst,
        ensures
            final(self).wf(),
            forall|x: int|
                0 <= x < MAP_WIDTH ==> final(self).spec_at(x, dst as int) == old(self).spec_at(
                    x,
                    src as int,
                ),
            forall|x: int, z: int|
                0 <= x < MAP_WIDTH && 0 <= z < MAP_HEIGHT && z != dst ==> final(self).spec_at(x, z)
                    == old(self).spec_at(x, z),
    {
        let mut x: usize = 0;
        while x < MAP_WIDTH
            invariant
                self.wf(),
                src < MAP_HEIGHT,
                dst < MAP_HEIGHT,
                src != dst,
                x <= MAP_WIDTH,
                forall|k: int|
                    0 <= k < x ==> self.spec_at(k, dst as int) == old(self).spec_at(k, src as int),
                forall|k: int, z: int|
                    0 <= k < MAP_WIDTH && 0 <= z < MAP_HEIGHT && !(z == dst && k < x)
                        ==> self.spec_at(k, z) == old(self).spec_at(k, z),
            decreases MAP_WIDTH - x,
        {
            let t = self.get(x, src);
            self.set(x, dst, t);
            x = x + 1;
        }
    }

    /// Empties every cell of row `y`.
    fn clear_row(&mut self, y: usize)
        requires
            old(self).wf(),
            y < MAP_HEIGHT,
        ensures
            final(self).wf(),
            forall|x: int|
                0 <= x < MAP_WIDTH ==> final(self).spec_at(x, y as int) == TileType::Empty,
            forall|x: int, z: int|
                0 <= x < MAP_WIDTH && 0 <= z < MAP_HEIGHT && z != y ==> final(self).spec_at(x, z)
                    == old(self).spec_at(x, z),
    {
        let mut x: usize = 0;
        while x < MAP_WIDTH
            invariant
                self.wf(),
                y < MAP_HEIGHT,
                x <= MAP_WIDTH,
                forall|k: int| 0 <= k < x ==> self.spec_at(k, y as int) == TileType::Empty,
                forall|k: int, z: int|
                    0 <= k < MAP_WIDTH && 0 <= z < MAP_HEIGHT && !(z == y && k < x)
                        ==> self.spec_at(k, z) == old(self).spec_at(k, z),
            decreases MAP_WIDTH - x,
        {
            self.set(x, y, TileType::Empty);
            x = x + 1;
        }
    }

    /// The scan result lists exactly the complete rows.
    pub proof fn lemma_full_rows_down_elems(self, y: int)
        ensures
            forall|k: int|
                0 <= k < self.full_rows_down(y).len() ==> self.row_full(
                    #[trigger] self.full_rows_down(y)[k],
                ),
            forall|z: int|
                y <= z < MAP_HEIGHT && self.row_full(z) ==> self.full_rows_down(y).contains(z),
        decreases MAP_HEIGHT - y,
    {
        if y < MAP_HEIGHT {
            self.lemma_full_rows_down_elems(y + 1);
            let rest = self.full_rows_down(y + 1);
            let whole = self.full_rows_down(y);
            if self.row_full(y) {
                assert(whole == rest + seq![y]);
                assert(forall|k: int| 0 <= k < rest.len() ==> whole[k] == rest[k]);
                assert(whole[whole.len() - 1] == y);
                assert forall|z: int|
                    y <= z < MAP_HEIGHT && self.row_full(z) implies whole.contains(z) by {
                    if z == y {
                        assert(whole[whole.len() - 1] == z);
                    } else {
                        assert(rest.contains(z));
                        let k = choose|k: int| 0 <= k < rest.len() && rest[k] == z;
                        assert(whole[k] == z);
                    }
                }
            } else {
                assert(whole =~= rest);
            }
        }
    }

    /// When every complete row lies among four given rows, the scan finds
    /// at most four lines.
    pub proof fn lemma_full_rows_bounded(self, r0: int, r1: int, r2: int, r3: int)
        requires
            forall|y: int|
                0 <= y < MAP_HEIGHT && #[trigger] self.row_full(y) ==> y == r0 || y == r1 || y
                    == r2 || y == r3,
        ensures
            self.full_rows_down(0).len() <= 4,
    {
        broadcast use vstd::set::group_set_axioms;

        let s = self.full_rows_down(0);
        self.lemma_full_rows_down_wf(0);
        self.lemma_full_rows_down_elems(0);
        assert forall|i: int, j: int| 0 <= i < j < s.len() implies s[i] != s[j] by {
            lemma_desc_chain(s, i, j);
        }
        assert(s.no_duplicates());
        let four = Set::<int>::empty().insert(r0).insert(r1).insert(r2).insert(r3);
        assert(s.to_set().subset_of(four)) by {
            assert forall|e: int| s.to_set().contains(e) implies four.contains(e) by {
                assert(s.contains(e));
                let k = choose|k: int| 0 <= k < s.len() && s[k] == e;
                assert(self.row_full(s[k]));
            }
        }
        assert(four.len() <= 4);
        s.unique_seq_to_set();
        vstd::set_lib::lemma_len_subset(s.to_set(), four);
    }

    /// On an all-empty board the scan finds no complete line at all.
    pub proof fn lemma_empty_board_no_lines(self, y: int)
        requires
            0 <= y,
            forall|x: int, z: int|
                0 <= x < MAP_WIDTH && 0 <= z < MAP_HEIGHT ==> self.spec_at(x, z)
                    == TileType::Empty,
        ensures
            self.full_rows_down(y) == Seq::<int>::empty(),
        decreases MAP_HEIGHT - y,
    {
        if y < MAP_HEIGHT {
            self.lemma_empty_board_no_lines(y + 1);
            assert(self.spec_at(0, y) == TileType::Empty);
            assert(!self.row_full(y));
            assert(self.full_rows_down(y) =~= self.full_rows_down(y + 1));
        } else {
            assert(self.full_rows_down(y) =~= Seq::<int>::empty());
        }
    }

    /// Compacting with an empty line list is a no-op: every row keeps its
    /// own contents and no top row is vacated.
    pub proof fn lemma_clear_nothing(lines: Seq<int>, z: int)
        requires
            lines.len() == 0,
        ensures
            lines_count(lines) == 0,
            compaction_src(lines, lines.len() - 1, z) == z,
    {
    }

    /// Clears the whole board back to empty cells.
    pub fn reset(&mut self)
        ensures
            final(self).wf(),
            forall|x: int, y: int|
                0 <= x < MAP_WIDTH && 0 <= y < MAP_HEIGHT ==> final(self).spec_at(x, y)
                    == TileType::Empty,
    {
        *self = Board::new();
    }

    /// Writes the tile at `(x, y)`, leaving every other cell as it was.
    pub fn set(&mut self, x: usize, y: usize, tile_type: TileType)
        requires
            old(self).wf(),
            x < MAP_WIDTH,
            y < MAP_HEIGHT,
        ensures
            final(self).wf(),
            final(self).spec_at(x as int, y as int) == tile_type,
            forall|x2: int, y2: int|
                0 <= x2 < MAP_WIDTH && 0 <= y2 < MAP_HEIGHT && !(x2 == x as int && y2 == y as int)
                    ==> final(self).spec_at(x2, y2) == old(self).spec_at(x2, y2),
    {
        proof {
            lemma_cell_index_bounds(x as int, y as int);
        }
        self.tiles.set(MAP_WIDTH * y + x, tile_type);
        proof {
            assert forall|x2: int, y2: int|
                0 <= x2 < MAP_WIDTH && 0 <= y2 < MAP_HEIGHT && !(x2 == x as int && y2
                    == y as int) implies final(self).spec_at(x2, y2) == old(self).spec_at(
                x2,
                y2,
            ) by {
                lemma_cell_index_bounds(x2, y2);
                lemma_cell_index_injective(x as int, y as int, x2, y2);
            }
        }
    }
}

/// Row-major indexing stays inside the grid.
proof fn lemma_cell_index_bounds(x: int, y: int)
    requires
        0 <= x < MAP_WIDTH,
        0 <= y < MAP_HEIGHT,
    ensures
        0 <= y * MAP_WIDTH + x < MAP_TILE_COUNT,
        y * MAP_WIDTH + x == MAP_WIDTH * y + x,
{
    assert(0 <= y * MAP_WIDTH + x < MAP_TILE_COUNT && y * MAP_WIDTH + x == MAP_WIDTH * y + x)
        by (nonlinear_arith)
        requires
            0 <= x < MAP_WIDTH,
            0 <= y < MAP_HEIGHT,
            MAP_WIDTH == 10,
            MAP_HEIGHT == 22,
            MAP_TILE_COUNT == 220,
    ;
}

/// Distinct cells have distinct row-major indices.
proof fn lemma_cell_index_injective(x1: int, y1: int, x2: int, y2: int)
    requires
        0 <= x1 < MAP_WIDTH,
        0 <= y1 < MAP_HEIGHT,
        0 <= x2 < MAP_WIDTH,
        0 <= y2 < MAP_HEIGHT,
        !(x1 == x2 && y1 == y2),
    ensures
        y1 * MAP_WIDTH + x1 != y2 * MAP_WIDTH + x2,
{
    assert(y1 * MAP_WIDTH + x1 != y2 * MAP_WIDTH + x2) by (nonlinear_arith)
        requires
            0 <= x1 < MAP_WIDTH,
            0 <= y1 < MAP_HEIGHT,
            0 <= x2 < MAP_WIDTH,
            0 <= y2 < MAP_HEIGHT,
            !(x1 == x2 && y1 == y2),
            MAP_WIDTH == 10,
    ;
}

} // verus!
