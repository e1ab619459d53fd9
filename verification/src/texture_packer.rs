//! A texture atlas packer: a guillotine tree over a fixed 512 x 512 pixel
//! buffer.  The tree lives in an arena, node 0 being the root; a node is
//! split until a rectangle of exactly the requested size is free.

use vstd::prelude::*;
use vstd::pervasive::VecAdditionalExecFns;

use crate::vec::Vec2;

verus! {

/// Side length of the atlas in pixels.
pub const ATLAS_SIZE: u32 = 512;

/// One node of the packing tree: the rectangle it represents, whether it
/// has been filled, and the two subdivisions once it has been split.
#[derive(Copy, Clone)]
pub struct Node {
    pub origin: Vec2<u32>,
    pub size: Vec2<u32>,
    pub empty: bool,
    pub first: Option<usize>,
    pub second: Option<usize>,
}

impl Node {
    /// A fresh unfilled leaf over the given rectangle.
    pub fn new(origin: Vec2<u32>, size: Vec2<u32>) -> (r: Node)
        ensures
            r.origin == origin,
            r.size == size,
            r.empty,
            r.first is None,
            r.second is None,
    {
        Node { origin, size, empty: true, first: None, second: None }
    }
}

/// A node's rectangle lies inside the atlas, and its children (present in
/// pairs) are earlier-split rectangles of strictly smaller area.
pub open spec fn node_wf(nodes: Seq<Node>, i: int) -> bool {
    let n = nodes[i];
    &&& n.origin.x + n.size.x <= ATLAS_SIZE
    &&& n.origin.y + n.size.y <= ATLAS_SIZE
    &&& (n.first is Some <==> n.second is Some)
    &&& match n.first {
        Some(a) => 0 <= a < nodes.len() && nodes[a as int].size.x * nodes[a as int].size.y
            < n.size.x * n.size.y,
        None => true,
    }
    &&& match n.second {
        Some(b) => 0 <= b < nodes.len() && nodes[b as int].size.x * nodes[b as int].size.y
            < n.size.x * n.size.y,
        None => true,
    }
}

/// The texture atlas: its pixel size, its pixel buffer, and the packing
/// tree.
pub struct TexturePacker {
    size: Vec2<u32>,
    buffer: Vec<u8>,
    nodes: Vec<Node>,
}

impl TexturePacker {
    /// A fixed-size atlas, one byte per pixel, and a tree with at least
    /// its root.
    pub closed spec fn wf(self) -> bool {
        &&& self.size.x == ATLAS_SIZE
        &&& self.size.y == ATLAS_SIZE
        &&& self.buffer@.len() == ATLAS_SIZE * ATLAS_SIZE
        &&& self.nodes@.len() >= 1
        &&& forall|i: int| 0 <= i < self.nodes@.len() ==> node_wf(self.nodes@, i)
    }

    /// The pixel at `(x, y)` of the atlas.
    pub closed spec fn spec_pixel(self, x: int, y: int) -> u8 {
        self.buffer@[y * ATLAS_SIZE + x]
    }

    /// The raw pixel buffer, row-major.
    pub closed spec fn spec_buffer(self) -> Seq<u8> {
        self.buffer@
    }

    /// An empty atlas: all pixels zero, the whole square free.
    pub fn new() -> (r: TexturePacker)
        ensures
            r.wf(),
            forall|x: int, y: int|
                0 <= x < ATLAS_SIZE && 0 <= y < ATLAS_SIZE ==> r.spec_pixel(x, y) == 0,
    {
        let size = Vec2::new(ATLAS_SIZE, ATLAS_SIZE);
        let mut buffer: Vec<u8> = Vec::new();
        let mut i: usize = 0;
        while i < 262144
            invariant
                i <= 262144,
                buffer@.len() == i,
                forall|k: int| 0 <= k < i ==> buffer@[k] == 0,
            decreases 262144 - i,
        {
            buffer.push(0);
            i = i + 1;
        }
        let mut nodes: Vec<Node> = Vec::new();
        nodes.push(Node::new(Vec2::new(0, 0), size));
        let r = TexturePacker { size, buffer, nodes };
        proof {
            assert forall|x: int, y: int|
                0 <= x < ATLAS_SIZE && 0 <= y < ATLAS_SIZE implies r.spec_pixel(x, y) == 0 by {
                lemma_pixel_index_bounds(x, y);
            }
        }
        r
    }

    /// The atlas size in pixels.
    pub fn size(&self) -> (r: Vec2<u32>)
        requires
            self.wf(),
        ensures
            r.x == ATLAS_SIZE,
            r.y == ATLAS_SIZE,
    {
        self.size
    }

    /// Hands the pixel buffer out, consuming the packer.
    pub fn data(self) -> (r: Vec<u8>)
        ensures
            r@ == self.spec_buffer(),
    {
        self.buffer
    }

    /// Writes one atlas pixel, leaving every other pixel as it was.
    fn set_pixel(&mut self, x: u32, y: u32, v: u8)
        requires
            old(self).wf(),
            x < ATLAS_SIZE,
            y < ATLAS_SIZE,
        ensures
            final(self).wf(),
            final(self).nodes == old(self).nodes,
            final(self).spec_pixel(x as int, y as int) == v,
            forall|x2: int, y2: int|
                0 <= x2 < ATLAS_SIZE && 0 <= y2 < ATLAS_SIZE && !(x2 == x as int && y2 == y as int)
                    ==> final(self).spec_pixel(x2, y2) == old(self).spec_pixel(x2, y2),
    {
        proof {
            lemma_pixel_index_bounds(x as int, y as int);
        }
        self.buffer.set((y as usize) * 512 + (x as usize), v);
        proof {
            assert forall|x2: int, y2: int|
                0 <= x2 < ATLAS_SIZE && 0 <= y2 < ATLAS_SIZE && !(x2 == x as int && y2
                    == y as int) implies final(self).spec_pixel(x2, y2) == old(self).spec_pixel(
                x2,
                y2,
            ) by {
                lemma_pixel_index_bounds(x2, y2);
                lemma_pixel_index_injective(x as int, y as int, x2, y2);
            }
        }
    }

    /// Searches the subtree at `node` for an unfilled leaf of exactly the
    /// requested size, splitting larger leaves on the way; the found leaf
    /// is marked filled.  Neither the pixels nor any existing rectangle
    /// move.
    fn pack_internal(&mut self, node: usize, bs: Vec2<u32>) -> (r: Option<usize>)
        requires
            old(self).wf(),
            node < old(self).nodes@.len(),
            1 <= bs.x <= ATLAS_SIZE,
            1 <= bs.y <= ATLAS_SIZE,
        ensures
            final(self).wf(),
            final(self).size == old(self).size,
            final(self).buffer == old(self).buffer,
            final(self).nodes@.len() >= old(self).nodes@.len(),
            forall|i: int|
                0 <= i < old(self).nodes@.len() ==> (#[trigger] final(self).nodes@[i]).size == old(
                    self,
                ).nodes@[i].size && final(self).nodes@[i].origin == old(self).nodes@[i].origin,
            match r {
                Some(n) => {
                    &&& 0 <= n < final(self).nodes@.len()
                    &&& final(self).nodes@[n as int].size.x == bs.x
                    &&& final(self).nodes@[n as int].size.y == bs.y
                    &&& final(self).nodes@[n as int].origin.x + bs.x <= ATLAS_SIZE
                    &&& final(self).nodes@[n as int].origin.y + bs.y <= ATLAS_SIZE
                },
                None => true,
            },
        decreases self.nodes@[node as int].size.x * self.nodes@[node as int].size.y,
    {
        let nd = self.nodes[node];
        if !nd.empty {
            return None;
        }
        if let (Some(a), Some(b)) = (nd.first, nd.second) {
            proof {
                assert(node_wf(self.nodes@, node as int));
            }
            let r1 = self.pack_internal(a, bs);
            match r1 {
                Some(x) => Some(x),
                None => {
                    proof {
                        assert(self.nodes@[b as int].size == old(self).nodes@[b as int].size);
                        assert(node_wf(old(self).nodes@, node as int));
                    }
                    self.pack_internal(b, bs)
                },
            }
        } else {
            proof {
                assert(node_wf(self.nodes@, node as int));
            }
            if nd.size.x == bs.x && nd.size.y == bs.y {
                let mut m = nd;
                m.empty = false;
                self.nodes.set(node, m);
                proof {
                    assert forall|i: int|
                        0 <= i < self.nodes@.len() implies node_wf(self.nodes@, i) by {
                        assert(node_wf(old(self).nodes@, i));
                    }
                }
                Some(node)
            } else if nd.size.x < bs.x || nd.size.y < bs.y {
                None
            } else {
                let x_remain = nd.size.x - bs.x;
                let y_remain = nd.size.y - bs.y;
                let mut vertical_split = x_remain < y_remain;
                if x_remain == 0 && y_remain == 0 {
                    vertical_split = nd.size.x <= nd.size.y;
                }
                let first: Node;
                let second: Node;
                if vertical_split {
                    first = Node::new(nd.origin, Vec2::new(nd.size.x, bs.y));
                    second = Node::new(
                        Vec2::new(nd.origin.x, nd.origin.y + bs.y),
                        Vec2::new(nd.size.x, nd.size.y - bs.y),
                    );
                } else {
                    first = Node::new(nd.origin, Vec2::new(bs.x, nd.size.y));
                    second = Node::new(
                        Vec2::new(nd.origin.x + bs.x, nd.origin.y),
                        Vec2::new(nd.size.x - bs.x, nd.size.y),
                    );
                }
                let ia = self.nodes.len();
                self.nodes.push(first);
                let ib = self.nodes.len();
                self.nodes.push(second);
                let mut m = nd;
                m.first = Some(ia);
                m.second = Some(ib);
                self.nodes.set(node, m);
                proof {
                    lemma_split_area(
                        nd.size.x as int,
                        nd.size.y as int,
                        bs.x as int,
                        bs.y as int,
                        vertical_split,
                    );
                    assert forall|i: int|
                        0 <= i < self.nodes@.len() implies node_wf(self.nodes@, i) by {
                        if i < old(self).nodes@.len() && i != node {
                            assert(node_wf(old(self).nodes@, i));
                        }
                    }
                }
                self.pack_internal(ia, bs)
            }
        }
    }

    /// Packs a `buffer_size` pixel rectangle into the atlas.  On success
    /// the pixels are copied row by row to the returned origin and every
    /// other pixel keeps its value; with no room left, `None` comes back
    /// and nothing changes: running out of atlas room is reported to the
    /// caller rather than treated as fatal.
    pub fn pack(&mut self, buffer: &[u8], buffer_size: Vec2<u32>) -> (r: Option<Vec2<u32>>)
        requires
            old(self).wf(),
            1 <= buffer_size.x <= ATLAS_SIZE,
            1 <= buffer_size.y <= ATLAS_SIZE,
            buffer@.len() == buffer_size.x * buffer_size.y,
        ensures
            final(self).wf(),
            match r {
                Some(origin) => {
                    &&& origin.x + buffer_size.x <= ATLAS_SIZE
                    &&& origin.y + buffer_size.y <= ATLAS_SIZE
                    &&& forall|dx: int, dy: int|
                        0 <= dx < buffer_size.x && 0 <= dy < buffer_size.y ==> #[trigger] final(self).spec_pixel(
                            origin.x + dx,
                            origin.y + dy,
                        ) == buffer@[dy * buffer_size.x + dx]
                    &&& forall|x: int, y: int|
                        0 <= x < ATLAS_SIZE && 0 <= y < ATLAS_SIZE && !(origin.x <= x < origin.x
                            + buffer_size.x && origin.y <= y < origin.y + buffer_size.y)
                            ==> final(self).spec_pixel(x, y) == old(self).spec_pixel(x, y)
                },
                None => final(self).spec_buffer() == old(self).spec_buffer(),
            },
    {
        let found = self.pack_internal(0, buffer_size);
        let node = match found {
            Some(n) => n,
            None => {
                return None;
            },
        };
        let origin = self.nodes[node].origin;
        let ghost mid = *self;
        let mut ly: u32 = 0;
        while ly < buffer_size.y
            invariant
                self.wf(),
                origin.x + buffer_size.x <= ATLAS_SIZE,
                origin.y + buffer_size.y <= ATLAS_SIZE,
                1 <= buffer_size.x <= ATLAS_SIZE,
                1 <= buffer_size.y <= ATLAS_SIZE,
                buffer@.len() == buffer_size.x * buffer_size.y,
                ly <= buffer_size.y,
                mid.spec_buffer() == old(self).spec_buffer(),
                forall|dx: int, dy: int|
                    0 <= dx < buffer_size.x && 0 <= dy < ly ==> #[trigger] self.spec_pixel(
                        origin.x + dx,
                        origin.y + dy,
                    ) == buffer@[dy * buffer_size.x + dx],
                forall|x: int, y: int|
                    0 <= x < ATLAS_SIZE && 0 <= y < ATLAS_SIZE && !(origin.x <= x < origin.x
                        + buffer_size.x && origin.y <= y < origin.y + ly) ==> self.spec_pixel(x, y)
                        == mid.spec_pixel(x, y),
            decreases buffer_size.y - ly,
        {
            let mut lx: u32 = 0;
            while lx < buffer_size.x
                invariant
                    self.wf(),
                    origin.x + buffer_size.x <= ATLAS_SIZE,
                    origin.y + buffer_size.y <= ATLAS_SIZE,
                    1 <= buffer_size.x <= ATLAS_SIZE,
                    1 <= buffer_size.y <= ATLAS_SIZE,
                    buffer@.len() == buffer_size.x * buffer_size.y,
                    ly < buffer_size.y,
                    lx <= buffer_size.x,
                    forall|dx: int, dy: int|
                        0 <= dx < buffer_size.x && 0 <= dy < ly ==> #[trigger] self.spec_pixel(
                            origin.x + dx,
                            origin.y + dy,
                        ) == buffer@[dy * buffer_size.x + dx],
                    forall|dx: int|
                        0 <= dx < lx ==> #[trigger] self.spec_pixel(
                            origin.x + dx,
                            origin.y + ly as int,
                        ) == buffer@[ly * buffer_size.x + dx],
                    forall|x: int, y: int|
                        0 <= x < ATLAS_SIZE && 0 <= y < ATLAS_SIZE && !(origin.x <= x < origin.x
                            + buffer_size.x && origin.y <= y < origin.y + ly + 1)
                            ==> self.spec_pixel(x, y) == mid.spec_pixel(x, y),
                decreases buffer_size.x - lx,
            {
                proof {
                    assert(0 <= ly * buffer_size.x + lx < buffer_size.x * buffer_size.y
                        && ly * buffer_size.x + lx < 262144) by (nonlinear_arith)
                        requires
                            0 <= lx < buffer_size.x,
                            0 <= ly < buffer_size.y,
                            buffer_size.x <= 512,
                            buffer_size.y <= 512,
                    ;
                }
                let v = buffer[(ly as usize) * (buffer_size.x as usize) + (lx as usize)];
                self.set_pixel(origin.x + lx, origin.y + ly, v);
                lx = lx + 1;
            }
            ly = ly + 1;
        }
        proof {
            assert(ly == buffer_size.y);
            assert forall|x: int, y: int|
                0 <= x < ATLAS_SIZE && 0 <= y < ATLAS_SIZE && !(origin.x <= x < origin.x
                    + buffer_size.x && origin.y <= y < origin.y + buffer_size.y) implies self.spec_pixel(
                x,
                y,
            ) == old(self).spec_pixel(x, y) by {
                assert(self.spec_pixel(x, y) == mid.spec_pixel(x, y));
                assert(mid.spec_buffer() == old(self).spec_buffer());
            }
        }
        Some(origin)
    }
}

/// Row-major pixel indexing stays inside the buffer.
proof fn lemma_pixel_index_bounds(x: int, y: int)
    requires
        0 <= x < ATLAS_SIZE,
        0 <= y < ATLAS_SIZE,
    ensures
        0 <= y * ATLAS_SIZE + x < ATLAS_SIZE * ATLAS_SIZE,
        y * ATLAS_SIZE + x == y * 512 + x,
{
    assert(0 <= y * 512 + x < 512 * 512) by (nonlinear_arith)
        requires
            0 <= x < 512,
            0 <= y < 512,
    ;
}

/// Distinct pixels have distinct row-major indices.
proof fn lemma_pixel_index_injective(x1: int, y1: int, x2: int, y2: int)
    requires
        0 <= x1 < ATLAS_SIZE,
        0 <= y1 < ATLAS_SIZE,
        0 <= x2 < ATLAS_SIZE,
        0 <= y2 < ATLAS_SIZE,
        !(x1 == x2 && y1 == y2),
    ensures
        y1 * ATLAS_SIZE + x1 != y2 * ATLAS_SIZE + x2,
{
    assert(y1 * 512 + x1 != y2 * 512 + x2) by (nonlinear_arith)
        requires
            0 <= x1 < 512,
            0 <= y1 < 512,
            0 <= x2 < 512,
            0 <= y2 < 512,
            !(x1 == x2 && y1 == y2),
    ;
}

/// A proper guillotine split leaves two children of strictly smaller area.
proof fn lemma_split_area(w: int, h: int, bw: int, bh: int, vertical: bool)
    requires
        1 <= bw <= w,
        1 <= bh <= h,
        !(w == bw && h == bh),
        vertical ==> bh < h,
        !vertical ==> bw < w,
    ensures
        vertical ==> w * bh < w * h && w * (h - bh) < w * h,
        !vertical ==> bw * h < w * h && (w - bw) * h < w * h,
{
    assert((vertical ==> w * bh < w * h && w * (h - bh) < w * h) && (!vertical ==> bw * h < w * h
        && (w - bw) * h < w * h)) by (nonlinear_arith)
        requires
            1 <= bw <= w,
            1 <= bh <= h,
            vertical ==> bh < h,
            !vertical ==> bw < w,
    ;
}

} // verus!
