use vstd::prelude::*;

use crate::block::BlockMeta;
use crate::chunk::{lemma_index_injective, lemma_index_range, lemma_wf_dims, ChunkData, CHUNK_SIZE};

verus! {

/// Per-voxel face-coverage mask: one bit per face records that the face
/// has already been emitted, possibly as part of a neighboring run.
#[derive(Debug, Clone, Copy, PartialEq, Eq, Structural)]
pub struct Face(pub u8);

impl Default for Face {
    fn default() -> (r: Self)
        ensures
            r.0 == 0,
    {
        Face(0)
    }
}

impl Face {
    pub open spec fn spec_top(self) -> bool {
        self.0 & 0x01 != 0
    }

    pub open spec fn spec_bottom(self) -> bool {
        self.0 & 0x02 != 0
    }

    pub open spec fn spec_left(self) -> bool {
        self.0 & 0x04 != 0
    }

    pub open spec fn spec_right(self) -> bool {
        self.0 & 0x08 != 0
    }

    pub open spec fn spec_back(self) -> bool {
        self.0 & 0x10 != 0
    }

    pub open spec fn spec_front(self) -> bool {
        self.0 & 0x20 != 0
    }

    pub fn top(&self) -> (r: bool)
        ensures
            r == self.spec_top(),
    {
        self.0 & 0x01 != 0
    }

    pub fn bottom(&self) -> (r: bool)
        ensures
            r == self.spec_bottom(),
    {
        self.0 & 0x02 != 0
    }

    pub fn left(&self) -> (r: bool)
        ensures
            r == self.spec_left(),
    {
        self.0 & 0x04 != 0
    }

    pub fn right(&self) -> (r: bool)
        ensures
            r == self.spec_right(),
    {
        self.0 & 0x08 != 0
    }

    pub fn back(&self) -> (r: bool)
        ensures
            r == self.spec_back(),
    {
        self.0 & 0x10 != 0
    }

    pub fn front(&self) -> (r: bool)
        ensures
            r == self.spec_front(),
    {
        self.0 & 0x20 != 0
    }

    pub fn set_top(&mut self)
        ensures
            final(self).0 == old(self).0 | 0x01,
    {
        self.0 = self.0 | 0x01;
    }

    pub fn set_bottom(&mut self)
        ensures
            final(self).0 == old(self).0 | 0x02,
    {
        self.0 = self.0 | 0x02;
    }

    pub fn set_left(&mut self)
        ensures
            final(self).0 == old(self).0 | 0x04,
    {
        self.0 = self.0 | 0x04;
    }

    pub fn set_right(&mut self)
        ensures
            final(self).0 == old(self).0 | 0x08,
    {
        self.0 = self.0 | 0x08;
    }

    pub fn set_back(&mut self)
        ensures
            final(self).0 == old(self).0 | 0x10,
    {
        self.0 = self.0 | 0x10;
    }

    pub fn set_front(&mut self)
        ensures
            final(self).0 == old(self).0 | 0x20,
    {
        self.0 = self.0 | 0x20;
    }

    /// All six faces already covered.
    pub fn all(&self) -> (r: bool)
        ensures
            r == (self.0 == 0x3f),
    {
        self.0 == 0x3f
    }

    pub fn from_top() -> (r: Self)
        ensures
            r.0 == 0x01,
    {
        Face(0x01)
    }

    pub fn from_bottom() -> (r: Self)
        ensures
            r.0 == 0x02,
    {
        Face(0x02)
    }

    pub fn from_left() -> (r: Self)
        ensures
            r.0 == 0x04,
    {
        Face(0x04)
    }

    pub fn from_right() -> (r: Self)
        ensures
            r.0 == 0x08,
    {
        Face(0x08)
    }

    pub fn from_back() -> (r: Self)
        ensures
            r.0 == 0x10,
    {
        Face(0x10)
    }

    pub fn from_front() -> (r: Self)
        ensures
            r.0 == 0x20,
    {
        Face(0x20)
    }
}

/// The eight corners of a unit voxel.
#[derive(Debug, Clone, Copy, PartialEq, Eq, Structural)]
pub enum Vertex {
    LeftBottomBack,
    RightBottomBack,
    RightTopBack,
    LeftTopBack,
    LeftBottomFront,
    RightBottomFront,
    RightTopFront,
    LeftTopFront,
}

impl Vertex {
    /// The corner's offset from the voxel origin, scaled by the run
    /// extents of the quad it belongs to.
    pub open spec fn spec_pos(self, x_run: u8, y_run: u8, z_run: u8) -> (u32, u32, u32) {
        match self {
            Vertex::LeftBottomFront => (0u32, 0u32, 0u32),
            Vertex::RightTopBack => (x_run as u32, y_run as u32, z_run as u32),
            Vertex::RightTopFront => (x_run as u32, y_run as u32, 0u32),
            Vertex::LeftTopBack => (0u32, y_run as u32, z_run as u32),
            Vertex::LeftTopFront => (0u32, y_run as u32, 0u32),
            Vertex::RightBottomBack => (x_run as u32, 0u32, z_run as u32),
            Vertex::LeftBottomBack => (0u32, 0u32, z_run as u32),
            Vertex::RightBottomFront => (x_run as u32, 0u32, 0u32),
        }
    }

    pub fn to_pos(self, x_run: u8, y_run: u8, z_run: u8) -> (r: (u32, u32, u32))
        ensures
            r == self.spec_pos(x_run, y_run, z_run),
            r.0 <= x_run && r.1 <= y_run && r.2 <= z_run,
    {
        match self {
            Vertex::LeftBottomFront => (0, 0, 0),
            Vertex::RightTopBack => (x_run as u32, y_run as u32, z_run as u32),
            Vertex::RightTopFront => (x_run as u32, y_run as u32, 0),
            Vertex::LeftTopBack => (0, y_run as u32, z_run as u32),
            Vertex::LeftTopFront => (0, y_run as u32, 0),
            Vertex::RightBottomBack => (x_run as u32, 0, z_run as u32),
            Vertex::LeftBottomBack => (0, 0, z_run as u32),
            Vertex::RightBottomFront => (x_run as u32, 0, 0),
        }
    }
}

/// The quads emitted for one voxel: a growing vertex list, indices into
/// it, and a cache of the up-to-eight unit-quad corner vertices so that a
/// corner shared by several unit faces is emitted once.
pub struct VertexSet {
    pub left_bottom_back: Option<u32>,
    pub right_bottom_back: Option<u32>,
    pub right_top_back: Option<u32>,
    pub left_top_back: Option<u32>,
    pub left_bottom_front: Option<u32>,
    pub right_bottom_front: Option<u32>,
    pub right_top_front: Option<u32>,
    pub left_top_front: Option<u32>,
    pub vertexs: Vec<(Vertex, u8, u8, u8)>,
    pub indices: Vec<u32>,
}

/// A quad entry rooted at voxel `(x, y, z)` stays inside the grid: the
/// voxel coordinate plus each run extent does not pass the chunk shape.
pub open spec fn run_fits(
    e: (Vertex, u8, u8, u8),
    x: u32,
    y: u32,
    z: u32,
    sx: u32,
    sy: u32,
    sz: u32,
) -> bool {
    &&& 1 <= e.1 && 1 <= e.2 && 1 <= e.3
    &&& x + (e.1 as u32) <= sx && y + (e.2 as u32) <= sy && z + (e.3 as u32) <= sz
}

/// A quad entry's run extents all fit within the given accumulated
/// extents.
pub open spec fn runs_within(e: (Vertex, u8, u8, u8), lx: u32, ly: u32, lz: u32) -> bool {
    (e.1 as u32) <= lx && (e.2 as u32) <= ly && (e.3 as u32) <= lz
}

/// The index buffer is a whole number of quads, and each quad's six
/// indices follow the fixed two-triangle pattern: the two triangles
/// share the quad's diagonal, so the fourth index repeats the first and
/// the fifth repeats the third.
pub open spec fn quad_pattern(s: Seq<u32>) -> bool {
    forall|n: int|
        0 <= n && n + 5 < s.len() && n % 6 == 0 ==> (#[trigger] s[n]) == s[n + 3] && s[n + 2] == s[n
            + 4]
}

/// A cached corner index, if present, points into the vertex list, at an
/// entry that holds exactly that corner.
pub open spec fn cache_ok(c: Option<u32>, s: Seq<(Vertex, u8, u8, u8)>, v: Vertex) -> bool {
    match c {
        Some(i) => (i as int) < s.len() && s[i as int].0 == v,
        None => true,
    }
}

impl VertexSet {
    /// Every index points into the vertex list, as does every cached
    /// corner.
    pub open spec fn wf(self) -> bool {
        &&& forall|k: int|
            0 <= k < self.indices@.len() ==> (#[trigger] self.indices@[k] as int)
                < self.vertexs@.len()
        &&& self.indices@.len() % 6 == 0
        &&& quad_pattern(self.indices@)
        &&& cache_ok(self.left_bottom_back, self.vertexs@, Vertex::LeftBottomBack)
        &&& cache_ok(self.right_bottom_back, self.vertexs@, Vertex::RightBottomBack)
        &&& cache_ok(self.right_top_back, self.vertexs@, Vertex::RightTopBack)
        &&& cache_ok(self.left_top_back, self.vertexs@, Vertex::LeftTopBack)
        &&& cache_ok(self.left_bottom_front, self.vertexs@, Vertex::LeftBottomFront)
        &&& cache_ok(self.right_bottom_front, self.vertexs@, Vertex::RightBottomFront)
        &&& cache_ok(self.right_top_front, self.vertexs@, Vertex::RightTopFront)
        &&& cache_ok(self.left_top_front, self.vertexs@, Vertex::LeftTopFront)
    }

    pub fn new() -> (r: VertexSet)
        ensures
            r.wf(),
            r.vertexs@.len() == 0,
            r.indices@.len() == 0,
    {
        VertexSet {
            left_bottom_back: None,
            right_bottom_back: None,
            right_top_back: None,
            left_top_back: None,
            left_bottom_front: None,
            right_bottom_front: None,
            right_top_front: None,
            left_top_front: None,
            vertexs: Vec::new(),
            indices: Vec::new(),
        }
    }

    /// Emits a merged quad: four fresh vertices scaled by the run
    /// extents, and the fixed two-triangle index pattern over them.
    pub fn add_run(
        &mut self,
        a: Vertex,
        b: Vertex,
        c: Vertex,
        d: Vertex,
        x_run: u8,
        y_run: u8,
        z_run: u8,
    )
        requires
            old(self).wf(),
            old(self).vertexs@.len() + 4 <= u32::MAX,
        ensures
            final(self).wf(),
            final(self).vertexs@.len() == old(self).vertexs@.len() + 4,
            final(self).indices@.len() == old(self).indices@.len() + 6,
            forall|k: int|
                0 <= k < old(self).vertexs@.len() ==> #[trigger] final(self).vertexs@[k] == old(
                self,
                ).vertexs@[k],
            final(self).vertexs@[old(self).vertexs@.len() as int] == (a, x_run, y_run, z_run),
            final(self).vertexs@[old(self).vertexs@.len() as int + 1] == (b, x_run, y_run, z_run),
            final(self).vertexs@[old(self).vertexs@.len() as int + 2] == (c, x_run, y_run, z_run),
            final(self).vertexs@[old(self).vertexs@.len() as int + 3] == (d, x_run, y_run, z_run),
            forall|k: int|
                0 <= k < old(self).indices@.len() ==> #[trigger] final(self).indices@[k] == old(
                self,
                ).indices@[k],
            final(self).indices@[old(self).indices@.len() as int] == old(
                self,
            ).vertexs@.len() as u32,
            final(self).indices@[old(self).indices@.len() as int + 1] == (old(self).vertexs@.len()
                + 1) as u32,
            final(self).indices@[old(self).indices@.len() as int + 2] == (old(self).vertexs@.len()
                + 2) as u32,
            final(self).indices@[old(self).indices@.len() as int + 3] == old(
                self,
            ).vertexs@.len() as u32,
            final(self).indices@[old(self).indices@.len() as int + 4] == (old(self).vertexs@.len()
                + 2) as u32,
            final(self).indices@[old(self).indices@.len() as int + 5] == (old(self).vertexs@.len()
                + 3) as u32,
    {
        let start = self.vertexs.len() as u32;
        self.vertexs.push((a, x_run, y_run, z_run));
        self.vertexs.push((b, x_run, y_run, z_run));
        self.vertexs.push((c, x_run, y_run, z_run));
        self.vertexs.push((d, x_run, y_run, z_run));
        self.indices.push(start);
        self.indices.push(start + 1);
        self.indices.push(start + 2);
        self.indices.push(start);
        self.indices.push(start + 2);
        self.indices.push(start + 3);
    }

    /// The index of a unit-quad corner vertex, emitting it if this is its
    /// first use on this voxel.
    fn index(&mut self, vertex: Vertex) -> (r: u32)
        requires
            old(self).wf(),
            old(self).vertexs@.len() + 1 <= u32::MAX,
        ensures
            final(self).wf(),
            (r as int) < final(self).vertexs@.len(),
            final(self).vertexs@[r as int].0 == vertex,
            old(self).vertexs@.len() <= final(self).vertexs@.len() <= old(self).vertexs@.len() + 1,
            final(self).indices@ == old(self).indices@,
            forall|k: int|
                0 <= k < old(self).vertexs@.len() ==> #[trigger] final(self).vertexs@[k] == old(
                self,
                ).vertexs@[k],
            forall|k: int|
                old(self).vertexs@.len() <= k < final(self).vertexs@.len() ==> (
                #[trigger] final(self).vertexs@[k]).1 == 1 && final(self).vertexs@[k].2 == 1
                    && final(self).vertexs@[k].3 == 1,
    {
        let cached = match vertex {
            Vertex::LeftBottomBack => self.left_bottom_back,
            Vertex::RightBottomBack => self.right_bottom_back,
            Vertex::RightTopBack => self.right_top_back,
            Vertex::LeftTopBack => self.left_top_back,
            Vertex::LeftBottomFront => self.left_bottom_front,
            Vertex::RightBottomFront => self.right_bottom_front,
            Vertex::RightTopFront => self.right_top_front,
            Vertex::LeftTopFront => self.left_top_front,
        };
        match cached {
            Some(i) => i,
            None => {
                let i = self.vertexs.len() as u32;
                self.vertexs.push((vertex, 1, 1, 1));
                match vertex {
                    Vertex::LeftBottomBack => {
                        self.left_bottom_back = Some(i);
                    },
                    Vertex::RightBottomBack => {
                        self.right_bottom_back = Some(i);
                    },
                    Vertex::RightTopBack => {
                        self.right_top_back = Some(i);
                    },
                    Vertex::LeftTopBack => {
                        self.left_top_back = Some(i);
                    },
                    Vertex::LeftBottomFront => {
                        self.left_bottom_front = Some(i);
                    },
                    Vertex::RightBottomFront => {
                        self.right_bottom_front = Some(i);
                    },
                    Vertex::RightTopFront => {
                        self.right_top_front = Some(i);
                    },
                    Vertex::LeftTopFront => {
                        self.left_top_front = Some(i);
                    },
                }
                i
            },
        }
    }

    /// Emits a unit quad through the corner-vertex cache: six indices in
    /// the fixed two-triangle pattern, reusing corners already emitted
    /// for this voxel.
    pub fn add_face(&mut self, a: Vertex, b: Vertex, c: Vertex, d: Vertex)
        requires
            old(self).wf(),
            old(self).vertexs@.len() + 4 <= u32::MAX,
        ensures
            final(self).wf(),
            old(self).vertexs@.len() <= final(self).vertexs@.len() <= old(self).vertexs@.len() + 4,
            final(self).indices@.len() == old(self).indices@.len() + 6,
            forall|k: int|
                0 <= k < old(self).vertexs@.len() ==> #[trigger] final(self).vertexs@[k] == old(
                self,
                ).vertexs@[k],
            forall|k: int|
                old(self).vertexs@.len() <= k < final(self).vertexs@.len() ==> (
                #[trigger] final(self).vertexs@[k]).1 == 1 && final(self).vertexs@[k].2 == 1
                    && final(self).vertexs@[k].3 == 1,
            forall|k: int|
                0 <= k < old(self).indices@.len() ==> #[trigger] final(self).indices@[k] == old(
                self,
                ).indices@[k],
            final(self).indices@[old(self).indices@.len() as int] == final(self).indices@[old(
                self,
            ).indices@.len() as int + 3],
            final(self).indices@[old(self).indices@.len() as int + 2] == final(self).indices@[old(
                self,
            ).indices@.len() as int + 4],
            final(self).vertexs@[final(self).indices@[old(self).indices@.len() as int] as int].0
                == a,
            final(self).vertexs@[final(self).indices@[old(self).indices@.len() as int + 1] as int].0
                == b,
            final(self).vertexs@[final(self).indices@[old(self).indices@.len() as int + 2] as int].0
                == c,
            final(self).vertexs@[final(self).indices@[old(self).indices@.len() as int + 5] as int].0
                == d,
    {
        let i0 = self.index(a);
        let i1 = self.index(b);
        let i2 = self.index(c);
        let i3 = self.index(d);
        self.indices.push(i0);
        self.indices.push(i1);
        self.indices.push(i2);
        self.indices.push(i0);
        self.indices.push(i2);
        self.indices.push(i3);
    }
}


/// The top face of `(x, y, z)` is visible: the cell above reads as
/// transparent (out-of-chunk neighbors always do).
pub open spec fn spec_top_visible(data: ChunkData, x: u32, y: u32, z: u32) -> bool {
    data.spec_block_meta(x, (y + 1) as u32, z).spec_transparent()
}

/// The bottom face of `(x, y, z)` is visible: the voxel sits on the
/// chunk floor or the cell below reads as transparent.
pub open spec fn spec_bottom_visible(data: ChunkData, x: u32, y: u32, z: u32) -> bool {
    y == 0 || data.spec_block_meta(x, (y - 1) as u32, z).spec_transparent()
}

/// The left face of `(x, y, z)` is visible.
pub open spec fn spec_left_visible(data: ChunkData, x: u32, y: u32, z: u32) -> bool {
    x == 0 || data.spec_block_meta((x - 1) as u32, y, z).spec_transparent()
}

/// The right face of `(x, y, z)` is visible.
pub open spec fn spec_right_visible(data: ChunkData, x: u32, y: u32, z: u32) -> bool {
    data.spec_block_meta((x + 1) as u32, y, z).spec_transparent()
}

/// The front face of `(x, y, z)` is visible.
pub open spec fn spec_front_visible(data: ChunkData, x: u32, y: u32, z: u32) -> bool {
    z == 0 || data.spec_block_meta(x, y, (z - 1) as u32).spec_transparent()
}

/// The back face of `(x, y, z)` is visible.
pub open spec fn spec_back_visible(data: ChunkData, x: u32, y: u32, z: u32) -> bool {
    data.spec_block_meta(x, y, (z + 1) as u32).spec_transparent()
}

/// The voxel is not empty space and at least one of its six faces is
/// visible, so the mesher owes it geometry.
pub open spec fn spec_visible_voxel(data: ChunkData, x: u32, y: u32, z: u32) -> bool {
    &&& data.spec_block_meta(x, y, z) != BlockMeta::spec_empty()
    &&& (spec_top_visible(data, x, y, z) || spec_bottom_visible(data, x, y, z)
        || spec_left_visible(data, x, y, z) || spec_right_visible(data, x, y, z)
        || spec_front_visible(data, x, y, z) || spec_back_visible(data, x, y, z))
}

/// Extends a run of top faces from `(x, y, z)` greedily along x, then
/// along z row by row, marks the absorbed cells' coverage bits, widens
/// the accumulated run extents, and emits exactly one quad — if and only
/// if the top face is visible.
fn emit_top(
    data: &ChunkData,
    mask: &mut Vec<Face>,
    out: &mut VertexSet,
    x: u32,
    y: u32,
    z: u32,
    block: u32,
    long_x: &mut u32,
    long_y: &mut u32,
    long_z: &mut u32,
)
    requires
        data.wf(),
        data.spec_in_bounds(x, y, z),
        old(mask)@.len() == data.blocks@.len(),
        old(out).wf(),
        old(out).vertexs@.len() <= 20,
        *old(long_x) <= 16,
        *old(long_y) <= 16,
        *old(long_z) <= 16,
    ensures
        final(mask)@.len() == old(mask)@.len(),
        final(out).wf(),
        old(out).vertexs@.len() <= final(out).vertexs@.len() <= old(out).vertexs@.len() + 4,
        spec_top_visible(*data, x, y, z) ==> final(out).indices@.len() == old(
            out,
        ).indices@.len() + 6,
        !spec_top_visible(*data, x, y, z) ==> *final(out) == *old(out) && final(mask)@ == old(
            mask,
        )@ && *final(long_x) == *old(long_x) && *final(long_y) == *old(long_y) && *final(long_z)
            == *old(long_z),
        forall|k: int|
            0 <= k < old(out).vertexs@.len() ==> #[trigger] final(out).vertexs@[k] == old(
                out,
            ).vertexs@[k],
        forall|k: int|
            old(out).vertexs@.len() <= k < final(out).vertexs@.len() ==> run_fits(
                #[trigger] final(out).vertexs@[k],
                x,
                y,
                z,
                data.size_x,
                data.size_y,
                data.size_z,
            ),
        forall|k: int|
            old(out).vertexs@.len() <= k < final(out).vertexs@.len() ==> runs_within(
                #[trigger] final(out).vertexs@[k],
                *final(long_x),
                *final(long_y),
                *final(long_z),
            ),
        *old(long_x) <= *final(long_x) <= 16,
        *old(long_y) <= *final(long_y) <= 16,
        *old(long_z) <= *final(long_z) <= 16,
{
    proof {
        lemma_wf_dims(*data);
    }
    if data.block_meta(x, y + 1, z).is_transparent() {
        let mut x_run: u32 = 1;
        let mut nx: u32 = x + 1;
        while nx < data.size_x
            invariant
                data.wf(),
                data.spec_in_bounds(x, y, z),
                x < nx <= data.size_x,
                x_run == nx - x,
                mask@.len() == data.blocks@.len(),
            ensures
                x < nx <= data.size_x,
                x_run == nx - x,
                mask@.len() == data.blocks@.len(),
            decreases data.size_x - nx,
        {
            if data.texture(nx, y, z) != block {
                break ;
            }
            if !data.block_meta(nx, y + 1, z).is_transparent() {
                break ;
            }
            let mi = data.get_index(nx, y, z);
            let mut f = mask[mi];
            if f.top() {
                break ;
            }
            f.set_top();
            mask[mi] = f;
            x_run = x_run + 1;
            nx = nx + 1;
        }
        let mut z_run: u32 = 1;
        let mut nz: u32 = z + 1;
        while nz < data.size_z
            invariant
                data.wf(),
                data.spec_in_bounds(x, y, z),
                x_run >= 1,
                x + x_run <= data.size_x,
                z < nz <= data.size_z,
                z_run == nz - z,
                mask@.len() == data.blocks@.len(),
            ensures
                z < nz <= data.size_z,
                z_run == nz - z,
                mask@.len() == data.blocks@.len(),
            decreases data.size_z - nz,
        {
            let mut row_ok = true;
            let mut cw: u32 = x;
            while cw < x + x_run
                invariant
                    data.wf(),
                    data.spec_in_bounds(x, y, z),
                    x_run >= 1,
                    x + x_run <= data.size_x,
                    z < nz < data.size_z,
                    x <= cw <= x + x_run,
                    mask@.len() == data.blocks@.len(),
                ensures
                    mask@.len() == data.blocks@.len(),
                decreases x + x_run - cw,
            {
                if data.texture(cw, y, nz) != block {
                    row_ok = false;
                    break ;
                }
                if !data.block_meta(cw, y + 1, nz).is_transparent() {
                    row_ok = false;
                    break ;
                }
                let mi = data.get_index(cw, y, nz);
                if mask[mi].top() {
                    row_ok = false;
                    break ;
                }
                cw = cw + 1;
            }
            if !row_ok {
                break ;
            }
            let mut cw2: u32 = x;
            while cw2 < x + x_run
                invariant
                    data.wf(),
                    data.spec_in_bounds(x, y, z),
                    x_run >= 1,
                    x + x_run <= data.size_x,
                    z < nz < data.size_z,
                    x <= cw2 <= x + x_run,
                    mask@.len() == data.blocks@.len(),
                decreases x + x_run - cw2,
            {
                let mi = data.get_index(cw2, y, nz);
                let mut f = mask[mi];
                f.set_top();
                mask[mi] = f;
                cw2 = cw2 + 1;
            }
            z_run = z_run + 1;
            nz = nz + 1;
        }
        if x_run > *long_x {
            *long_x = x_run;
        }
        if *long_y < 1 {
            *long_y = 1;
        }
        if z_run > *long_z {
            *long_z = z_run;
        }
        if x_run > 1 || z_run > 1 {
            out.add_run(
                Vertex::LeftTopBack,
                Vertex::RightTopBack,
                Vertex::RightTopFront,
                Vertex::LeftTopFront,
                x_run as u8,
                1,
                z_run as u8,
            );
        } else {
            out.add_face(
                Vertex::LeftTopBack,
                Vertex::RightTopBack,
                Vertex::RightTopFront,
                Vertex::LeftTopFront,
            );
        }
    }
}

/// Extends a run of bottom faces from `(x, y, z)` greedily along x, then
/// along z row by row, marks the absorbed cells' coverage bits, widens
/// the accumulated run extents, and emits exactly one quad — if and only
/// if the bottom face is visible.
fn emit_bottom(
    data: &ChunkData,
    mask: &mut Vec<Face>,
    out: &mut VertexSet,
    x: u32,
    y: u32,
    z: u32,
    block: u32,
    long_x: &mut u32,
    long_y: &mut u32,
    long_z: &mut u32,
)
    requires
        data.wf(),
        data.spec_in_bounds(x, y, z),
        old(mask)@.len() == data.blocks@.len(),
        old(out).wf(),
        old(out).vertexs@.len() <= 20,
        *old(long_x) <= 16,
        *old(long_y) <= 16,
        *old(long_z) <= 16,
    ensures
        final(mask)@.len() == old(mask)@.len(),
        final(out).wf(),
        old(out).vertexs@.len() <= final(out).vertexs@.len() <= old(out).vertexs@.len() + 4,
        spec_bottom_visible(*data, x, y, z) ==> final(out).indices@.len() == old(
            out,
        ).indices@.len() + 6,
        !spec_bottom_visible(*data, x, y, z) ==> *final(out) == *old(out) && final(mask)@ == old(
            mask,
        )@ && *final(long_x) == *old(long_x) && *final(long_y) == *old(long_y) && *final(long_z)
            == *old(long_z),
        forall|k: int|
            0 <= k < old(out).vertexs@.len() ==> #[trigger] final(out).vertexs@[k] == old(
                out,
            ).vertexs@[k],
        forall|k: int|
            old(out).vertexs@.len() <= k < final(out).vertexs@.len() ==> run_fits(
                #[trigger] final(out).vertexs@[k],
                x,
                y,
                z,
                data.size_x,
                data.size_y,
                data.size_z,
            ),
        forall|k: int|
            old(out).vertexs@.len() <= k < final(out).vertexs@.len() ==> runs_within(
                #[trigger] final(out).vertexs@[k],
                *final(long_x),
                *final(long_y),
                *final(long_z),
            ),
        *old(long_x) <= *final(long_x) <= 16,
        *old(long_y) <= *final(long_y) <= 16,
        *old(long_z) <= *final(long_z) <= 16,
{
    proof {
        lemma_wf_dims(*data);
    }
    if y == 0 || data.block_meta(x, y - 1, z).is_transparent() {
        let mut x_run: u32 = 1;
        let mut nx: u32 = x + 1;
        while nx < data.size_x
            invariant
                data.wf(),
                data.spec_in_bounds(x, y, z),
                x < nx <= data.size_x,
                x_run == nx - x,
                mask@.len() == data.blocks@.len(),
            ensures
                x < nx <= data.size_x,
                x_run == nx - x,
                mask@.len() == data.blocks@.len(),
            decreases data.size_x - nx,
        {
            if data.texture(nx, y, z) != block {
                break ;
            }
            if y != 0 && !data.block_meta(nx, y - 1, z).is_transparent() {
                break ;
            }
            let mi = data.get_index(nx, y, z);
            let mut f = mask[mi];
            if f.bottom() {
                break ;
            }
            f.set_bottom();
            mask[mi] = f;
            x_run = x_run + 1;
            nx = nx + 1;
        }
        let mut z_run: u32 = 1;
        let mut nz: u32 = z + 1;
        while nz < data.size_z
            invariant
                data.wf(),
                data.spec_in_bounds(x, y, z),
                x_run >= 1,
                x + x_run <= data.size_x,
                z < nz <= data.size_z,
                z_run == nz - z,
                mask@.len() == data.blocks@.len(),
            ensures
                z < nz <= data.size_z,
                z_run == nz - z,
                mask@.len() == data.blocks@.len(),
            decreases data.size_z - nz,
        {
            let mut row_ok = true;
            let mut cw: u32 = x;
            while cw < x + x_run
                invariant
                    data.wf(),
                    data.spec_in_bounds(x, y, z),
                    x_run >= 1,
                    x + x_run <= data.size_x,
                    z < nz < data.size_z,
                    x <= cw <= x + x_run,
                    mask@.len() == data.blocks@.len(),
                ensures
                    mask@.len() == data.blocks@.len(),
                decreases x + x_run - cw,
            {
                if data.texture(cw, y, nz) != block {
                    row_ok = false;
                    break ;
                }
                if y != 0 && !data.block_meta(cw, y - 1, nz).is_transparent() {
                    row_ok = false;
                    break ;
                }
                let mi = data.get_index(cw, y, nz);
                if mask[mi].bottom() {
                    row_ok = false;
                    break ;
                }
                cw = cw + 1;
            }
            if !row_ok {
                break ;
            }
            let mut cw2: u32 = x;
            while cw2 < x + x_run
                invariant
                    data.wf(),
                    data.spec_in_bounds(x, y, z),
                    x_run >= 1,
                    x + x_run <= data.size_x,
                    z < nz < data.size_z,
                    x <= cw2 <= x + x_run,
                    mask@.len() == data.blocks@.len(),
                decreases x + x_run - cw2,
            {
                let mi = data.get_index(cw2, y, nz);
                let mut f = mask[mi];
                f.set_bottom();
                mask[mi] = f;
                cw2 = cw2 + 1;
            }
            z_run = z_run + 1;
            nz = nz + 1;
        }
        if x_run > *long_x {
            *long_x = x_run;
        }
        if *long_y < 1 {
            *long_y = 1;
        }
        if z_run > *long_z {
            *long_z = z_run;
        }
        if x_run > 1 || z_run > 1 {
            out.add_run(
                Vertex::LeftBottomBack,
                Vertex::LeftBottomFront,
                Vertex::RightBottomFront,
                Vertex::RightBottomBack,
                x_run as u8,
                1,
                z_run as u8,
            );
        } else {
            out.add_face(
                Vertex::LeftBottomBack,
                Vertex::LeftBottomFront,
                Vertex::RightBottomFront,
                Vertex::RightBottomBack,
            );
        }
    }
}

/// Extends a run of left faces from `(x, y, z)` greedily along z, then
/// along y row by row, marks the absorbed cells' coverage bits, widens
/// the accumulated run extents, and emits exactly one quad — if and only
/// if the left face is visible.
fn emit_left(
    data: &ChunkData,
    mask: &mut Vec<Face>,
    out: &mut VertexSet,
    x: u32,
    y: u32,
    z: u32,
    block: u32,
    long_x: &mut u32,
    long_y: &mut u32,
    long_z: &mut u32,
)
    requires
        data.wf(),
        data.spec_in_bounds(x, y, z),
        old(mask)@.len() == data.blocks@.len(),
        old(out).wf(),
        old(out).vertexs@.len() <= 20,
        *old(long_x) <= 16,
        *old(long_y) <= 16,
        *old(long_z) <= 16,
    ensures
        final(mask)@.len() == old(mask)@.len(),
        final(out).wf(),
        old(out).vertexs@.len() <= final(out).vertexs@.len() <= old(out).vertexs@.len() + 4,
        spec_left_visible(*data, x, y, z) ==> final(out).indices@.len() == old(
            out,
        ).indices@.len() + 6,
        !spec_left_visible(*data, x, y, z) ==> *final(out) == *old(out) && final(mask)@ == old(
            mask,
        )@ && *final(long_x) == *old(long_x) && *final(long_y) == *old(long_y) && *final(long_z)
            == *old(long_z),
        forall|k: int|
            0 <= k < old(out).vertexs@.len() ==> #[trigger] final(out).vertexs@[k] == old(
                out,
            ).vertexs@[k],
        forall|k: int|
            old(out).vertexs@.len() <= k < final(out).vertexs@.len() ==> run_fits(
                #[trigger] final(out).vertexs@[k],
                x,
                y,
                z,
                data.size_x,
                data.size_y,
                data.size_z,
            ),
        forall|k: int|
            old(out).vertexs@.len() <= k < final(out).vertexs@.len() ==> runs_within(
                #[trigger] final(out).vertexs@[k],
                *final(long_x),
                *final(long_y),
                *final(long_z),
            ),
        *old(long_x) <= *final(long_x) <= 16,
        *old(long_y) <= *final(long_y) <= 16,
        *old(long_z) <= *final(long_z) <= 16,
{
    proof {
        lemma_wf_dims(*data);
    }
    if x == 0 || data.block_meta(x - 1, y, z).is_transparent() {
        let mut z_run: u32 = 1;
        let mut nz: u32 = z + 1;
        while nz < data.size_z
            invariant
                data.wf(),
                data.spec_in_bounds(x, y, z),
                z < nz <= data.size_z,
                z_run == nz - z,
                mask@.len() == data.blocks@.len(),
            ensures
                z < nz <= data.size_z,
                z_run == nz - z,
                mask@.len() == data.blocks@.len(),
            decreases data.size_z - nz,
        {
            if data.texture(x, y, nz) != block {
                break ;
            }
            if x != 0 && !data.block_meta(x - 1, y, nz).is_transparent() {
                break ;
            }
            let mi = data.get_index(x, y, nz);
            let mut f = mask[mi];
            if f.left() {
                break ;
            }
            f.set_left();
            mask[mi] = f;
            z_run = z_run + 1;
            nz = nz + 1;
        }
        let mut y_run: u32 = 1;
        let mut ny: u32 = y + 1;
        while ny < data.size_y
            invariant
                data.wf(),
                data.spec_in_bounds(x, y, z),
                z_run >= 1,
                z + z_run <= data.size_z,
                y < ny <= data.size_y,
                y_run == ny - y,
                mask@.len() == data.blocks@.len(),
            ensures
                y < ny <= data.size_y,
                y_run == ny - y,
                mask@.len() == data.blocks@.len(),
            decreases data.size_y - ny,
        {
            let mut row_ok = true;
            let mut cw: u32 = z;
            while cw < z + z_run
                invariant
                    data.wf(),
                    data.spec_in_bounds(x, y, z),
                    z_run >= 1,
                    z + z_run <= data.size_z,
                    y < ny < data.size_y,
                    z <= cw <= z + z_run,
                    mask@.len() == data.blocks@.len(),
                ensures
                    mask@.len() == data.blocks@.len(),
                decreases z + z_run - cw,
            {
                if data.texture(x, ny, cw) != block {
                    row_ok = false;
                    break ;
                }
                if x != 0 && !data.block_meta(x - 1, ny, cw).is_transparent() {
                    row_ok = false;
                    break ;
                }
                let mi = data.get_index(x, ny, cw);
                if mask[mi].left() {
                    row_ok = false;
                    break ;
                }
                cw = cw + 1;
            }
            if !row_ok {
                break ;
            }
            let mut cw2: u32 = z;
            while cw2 < z + z_run
                invariant
                    data.wf(),
                    data.spec_in_bounds(x, y, z),
                    z_run >= 1,
                    z + z_run <= data.size_z,
                    y < ny < data.size_y,
                    z <= cw2 <= z + z_run,
                    mask@.len() == data.blocks@.len(),
                decreases z + z_run - cw2,
            {
                let mi = data.get_index(x, ny, cw2);
                let mut f = mask[mi];
                f.set_left();
                mask[mi] = f;
                cw2 = cw2 + 1;
            }
            y_run = y_run + 1;
            ny = ny + 1;
        }
        if *long_x < 1 {
            *long_x = 1;
        }
        if y_run > *long_y {
            *long_y = y_run;
        }
        if z_run > *long_z {
            *long_z = z_run;
        }
        if z_run > 1 || y_run > 1 {
            out.add_run(
                Vertex::LeftBottomBack,
                Vertex::LeftTopBack,
                Vertex::LeftTopFront,
                Vertex::LeftBottomFront,
                1,
                y_run as u8,
                z_run as u8,
            );
        } else {
            out.add_face(
                Vertex::LeftBottomBack,
                Vertex::LeftTopBack,
                Vertex::LeftTopFront,
                Vertex::LeftBottomFront,
            );
        }
    }
}

/// Extends a run of right faces from `(x, y, z)` greedily along z, then
/// along y row by row, marks the absorbed cells' coverage bits, widens
/// the accumulated run extents, and emits exactly one quad — if and only
/// if the right face is visible.
fn emit_right(
    data: &ChunkData,
    mask: &mut Vec<Face>,
    out: &mut VertexSet,
    x: u32,
    y: u32,
    z: u32,
    block: u32,
    long_x: &mut u32,
    long_y: &mut u32,
    long_z: &mut u32,
)
    requires
        data.wf(),
        data.spec_in_bounds(x, y, z),
        old(mask)@.len() == data.blocks@.len(),
        old(out).wf(),
        old(out).vertexs@.len() <= 20,
        *old(long_x) <= 16,
        *old(long_y) <= 16,
        *old(long_z) <= 16,
    ensures
        final(mask)@.len() == old(mask)@.len(),
        final(out).wf(),
        old(out).vertexs@.len() <= final(out).vertexs@.len() <= old(out).vertexs@.len() + 4,
        spec_right_visible(*data, x, y, z) ==> final(out).indices@.len() == old(
            out,
        ).indices@.len() + 6,
        !spec_right_visible(*data, x, y, z) ==> *final(out) == *old(out) && final(mask)@ == old(
            mask,
        )@ && *final(long_x) == *old(long_x) && *final(long_y) == *old(long_y) && *final(long_z)
            == *old(long_z),
        forall|k: int|
            0 <= k < old(out).vertexs@.len() ==> #[trigger] final(out).vertexs@[k] == old(
                out,
            ).vertexs@[k],
        forall|k: int|
            old(out).vertexs@.len() <= k < final(out).vertexs@.len() ==> run_fits(
                #[trigger] final(out).vertexs@[k],
                x,
                y,
                z,
                data.size_x,
                data.size_y,
                data.size_z,
            ),
        forall|k: int|
            old(out).vertexs@.len() <= k < final(out).vertexs@.len() ==> runs_within(
                #[trigger] final(out).vertexs@[k],
                *final(long_x),
                *final(long_y),
                *final(long_z),
            ),
        *old(long_x) <= *final(long_x) <= 16,
        *old(long_y) <= *final(long_y) <= 16,
        *old(long_z) <= *final(long_z) <= 16,
{
    proof {
        lemma_wf_dims(*data);
    }
    if data.block_meta(x + 1, y, z).is_transparent() {
        let mut z_run: u32 = 1;
        let mut nz: u32 = z + 1;
        while nz < data.size_z
            invariant
                data.wf(),
                data.spec_in_bounds(x, y, z),
                z < nz <= data.size_z,
                z_run == nz - z,
                mask@.len() == data.blocks@.len(),
            ensures
                z < nz <= data.size_z,
                z_run == nz - z,
                mask@.len() == data.blocks@.len(),
            decreases data.size_z - nz,
        {
            if data.texture(x, y, nz) != block {
                break ;
            }
            if !data.block_meta(x + 1, y, nz).is_transparent() {
                break ;
            }
            let mi = data.get_index(x, y, nz);
            let mut f = mask[mi];
            if f.right() {
                break ;
            }
            f.set_right();
            mask[mi] = f;
            z_run = z_run + 1;
            nz = nz + 1;
        }
        let mut y_run: u32 = 1;
        let mut ny: u32 = y + 1;
        while ny < data.size_y
            invariant
                data.wf(),
                data.spec_in_bounds(x, y, z),
                z_run >= 1,
                z + z_run <= data.size_z,
                y < ny <= data.size_y,
                y_run == ny - y,
                mask@.len() == data.blocks@.len(),
            ensures
                y < ny <= data.size_y,
                y_run == ny - y,
                mask@.len() == data.blocks@.len(),
            decreases data.size_y - ny,
        {
            let mut row_ok = true;
            let mut cw: u32 = z;
            while cw < z + z_run
                invariant
                    data.wf(),
                    data.spec_in_bounds(x, y, z),
                    z_run >= 1,
                    z + z_run <= data.size_z,
                    y < ny < data.size_y,
                    z <= cw <= z + z_run,
                    mask@.len() == data.blocks@.len(),
                ensures
                    mask@.len() == data.blocks@.len(),
                decreases z + z_run - cw,
            {
                if data.texture(x, ny, cw) != block {
                    row_ok = false;
                    break ;
                }
                if !data.block_meta(x + 1, ny, cw).is_transparent() {
                    row_ok = false;
                    break ;
                }
                let mi = data.get_index(x, ny, cw);
                if mask[mi].right() {
                    row_ok = false;
                    break ;
                }
                cw = cw + 1;
            }
            if !row_ok {
                break ;
            }
            let mut cw2: u32 = z;
            while cw2 < z + z_run
                invariant
                    data.wf(),
                    data.spec_in_bounds(x, y, z),
                    z_run >= 1,
                    z + z_run <= data.size_z,
                    y < ny < data.size_y,
                    z <= cw2 <= z + z_run,
                    mask@.len() == data.blocks@.len(),
                decreases z + z_run - cw2,
            {
                let mi = data.get_index(x, ny, cw2);
                let mut f = mask[mi];
                f.set_right();
                mask[mi] = f;
                cw2 = cw2 + 1;
            }
            y_run = y_run + 1;
            ny = ny + 1;
        }
        if *long_x < 1 {
            *long_x = 1;
        }
        if y_run > *long_y {
            *long_y = y_run;
        }
        if z_run > *long_z {
            *long_z = z_run;
        }
        if z_run > 1 || y_run > 1 {
            out.add_run(
                Vertex::RightBottomBack,
                Vertex::RightBottomFront,
                Vertex::RightTopFront,
                Vertex::RightTopBack,
                1,
                y_run as u8,
                z_run as u8,
            );
        } else {
            out.add_face(
                Vertex::RightBottomBack,
                Vertex::RightBottomFront,
                Vertex::RightTopFront,
                Vertex::RightTopBack,
            );
        }
    }
}

/// Extends a run of front faces from `(x, y, z)` greedily along x, then
/// along y row by row, marks the absorbed cells' coverage bits, widens
/// the accumulated run extents, and emits exactly one quad — if and only
/// if the front face is visible.
fn emit_front(
    data: &ChunkData,
    mask: &mut Vec<Face>,
    out: &mut VertexSet,
    x: u32,
    y: u32,
    z: u32,
    block: u32,
    long_x: &mut u32,
    long_y: &mut u32,
    long_z: &mut u32,
)
    requires
        data.wf(),
        data.spec_in_bounds(x, y, z),
        old(mask)@.len() == data.blocks@.len(),
        old(out).wf(),
        old(out).vertexs@.len() <= 20,
        *old(long_x) <= 16,
        *old(long_y) <= 16,
        *old(long_z) <= 16,
    ensures
        final(mask)@.len() == old(mask)@.len(),
        final(out).wf(),
        old(out).vertexs@.len() <= final(out).vertexs@.len() <= old(out).vertexs@.len() + 4,
        spec_front_visible(*data, x, y, z) ==> final(out).indices@.len() == old(
            out,
        ).indices@.len() + 6,
        !spec_front_visible(*data, x, y, z) ==> *final(out) == *old(out) && final(mask)@ == old(
            mask,
        )@ && *final(long_x) == *old(long_x) && *final(long_y) == *old(long_y) && *final(long_z)
            == *old(long_z),
        forall|k: int|
            0 <= k < old(out).vertexs@.len() ==> #[trigger] final(out).vertexs@[k] == old(
                out,
            ).vertexs@[k],
        forall|k: int|
            old(out).vertexs@.len() <= k < final(out).vertexs@.len() ==> run_fits(
                #[trigger] final(out).vertexs@[k],
                x,
                y,
                z,
                data.size_x,
                data.size_y,
                data.size_z,
            ),
        forall|k: int|
            old(out).vertexs@.len() <= k < final(out).vertexs@.len() ==> runs_within(
                #[trigger] final(out).vertexs@[k],
                *final(long_x),
                *final(long_y),
                *final(long_z),
            ),
        *old(long_x) <= *final(long_x) <= 16,
        *old(long_y) <= *final(long_y) <= 16,
        *old(long_z) <= *final(long_z) <= 16,
{
    proof {
        lemma_wf_dims(*data);
    }
    if z == 0 || data.block_meta(x, y, z - 1).is_transparent() {
        let mut x_run: u32 = 1;
        let mut nx: u32 = x + 1;
        while nx < data.size_x
            invariant
                data.wf(),
                data.spec_in_bounds(x, y, z),
                x < nx <= data.size_x,
                x_run == nx - x,
                mask@.len() == data.blocks@.len(),
            ensures
                x < nx <= data.size_x,
                x_run == nx - x,
                mask@.len() == data.blocks@.len(),
            decreases data.size_x - nx,
        {
            if data.texture(nx, y, z) != block {
                break ;
            }
            if z != 0 && !data.block_meta(nx, y, z - 1).is_transparent() {
                break ;
            }
            let mi = data.get_index(nx, y, z);
            let mut f = mask[mi];
            if f.front() {
                break ;
            }
            f.set_front();
            mask[mi] = f;
            x_run = x_run + 1;
            nx = nx + 1;
        }
        let mut y_run: u32 = 1;
        let mut ny: u32 = y + 1;
        while ny < data.size_y
            invariant
                data.wf(),
                data.spec_in_bounds(x, y, z),
                x_run >= 1,
                x + x_run <= data.size_x,
                y < ny <= data.size_y,
                y_run == ny - y,
                mask@.len() == data.blocks@.len(),
            ensures
                y < ny <= data.size_y,
                y_run == ny - y,
                mask@.len() == data.blocks@.len(),
            decreases data.size_y - ny,
        {
            let mut row_ok = true;
            let mut cw: u32 = x;
            while cw < x + x_run
                invariant
                    data.wf(),
                    data.spec_in_bounds(x, y, z),
                    x_run >= 1,
                    x + x_run <= data.size_x,
                    y < ny < data.size_y,
                    x <= cw <= x + x_run,
                    mask@.len() == data.blocks@.len(),
                ensures
                    mask@.len() == data.blocks@.len(),
                decreases x + x_run - cw,
            {
                if data.texture(cw, ny, z) != block {
                    row_ok = false;
                    break ;
                }
                if z != 0 && !data.block_meta(cw, ny, z - 1).is_transparent() {
                    row_ok = false;
                    break ;
                }
                let mi = data.get_index(cw, ny, z);
                if mask[mi].front() {
                    row_ok = false;
                    break ;
                }
                cw = cw + 1;
            }
            if !row_ok {
                break ;
            }
            let mut cw2: u32 = x;
            while cw2 < x + x_run
                invariant
                    data.wf(),
                    data.spec_in_bounds(x, y, z),
                    x_run >= 1,
                    x + x_run <= data.size_x,
                    y < ny < data.size_y,
                    x <= cw2 <= x + x_run,
                    mask@.len() == data.blocks@.len(),
                decreases x + x_run - cw2,
            {
                let mi = data.get_index(cw2, ny, z);
                let mut f = mask[mi];
                f.set_front();
                mask[mi] = f;
                cw2 = cw2 + 1;
            }
            y_run = y_run + 1;
            ny = ny + 1;
        }
        if x_run > *long_x {
            *long_x = x_run;
        }
        if y_run > *long_y {
            *long_y = y_run;
        }
        if *long_z < 1 {
            *long_z = 1;
        }
        if x_run > 1 || y_run > 1 {
            out.add_run(
                Vertex::LeftBottomFront,
                Vertex::LeftTopFront,
                Vertex::RightTopFront,
                Vertex::RightBottomFront,
                x_run as u8,
                y_run as u8,
                1,
            );
        } else {
            out.add_face(
                Vertex::LeftBottomFront,
                Vertex::LeftTopFront,
                Vertex::RightTopFront,
                Vertex::RightBottomFront,
            );
        }
    }
}

/// Extends a run of back faces from `(x, y, z)` greedily along x, then
/// along y row by row, marks the absorbed cells' coverage bits, widens
/// the accumulated run extents, and emits exactly one quad — if and only
/// if the back face is visible.
fn emit_back(
    data: &ChunkData,
    mask: &mut Vec<Face>,
    out: &mut VertexSet,
    x: u32,
    y: u32,
    z: u32,
    block: u32,
    long_x: &mut u32,
    long_y: &mut u32,
    long_z: &mut u32,
)
    requires
        data.wf(),
        data.spec_in_bounds(x, y, z),
        old(mask)@.len() == data.blocks@.len(),
        old(out).wf(),
        old(out).vertexs@.len() <= 20,
        *old(long_x) <= 16,
        *old(long_y) <= 16,
        *old(long_z) <= 16,
    ensures
        final(mask)@.len() == old(mask)@.len(),
        final(out).wf(),
        old(out).vertexs@.len() <= final(out).vertexs@.len() <= old(out).vertexs@.len() + 4,
        spec_back_visible(*data, x, y, z) ==> final(out).indices@.len() == old(
            out,
        ).indices@.len() + 6,
        !spec_back_visible(*data, x, y, z) ==> *final(out) == *old(out) && final(mask)@ == old(
            mask,
        )@ && *final(long_x) == *old(long_x) && *final(long_y) == *old(long_y) && *final(long_z)
            == *old(long_z),
        forall|k: int|
            0 <= k < old(out).vertexs@.len() ==> #[trigger] final(out).vertexs@[k] == old(
                out,
            ).vertexs@[k],
        forall|k: int|
            old(out).vertexs@.len() <= k < final(out).vertexs@.len() ==> run_fits(
                #[trigger] final(out).vertexs@[k],
                x,
                y,
                z,
                data.size_x,
                data.size_y,
                data.size_z,
            ),
        forall|k: int|
            old(out).vertexs@.len() <= k < final(out).vertexs@.len() ==> runs_within(
                #[trigger] final(out).vertexs@[k],
                *final(long_x),
                *final(long_y),
                *final(long_z),
            ),
        *old(long_x) <= *final(long_x) <= 16,
        *old(long_y) <= *final(long_y) <= 16,
        *old(long_z) <= *final(long_z) <= 16,
{
    proof {
        lemma_wf_dims(*data);
    }
    if data.block_meta(x, y, z + 1).is_transparent() {
        let mut x_run: u32 = 1;
        let mut nx: u32 = x + 1;
        while nx < data.size_x
            invariant
                data.wf(),
                data.spec_in_bounds(x, y, z),
                x < nx <= data.size_x,
                x_run == nx - x,
                mask@.len() == data.blocks@.len(),
            ensures
                x < nx <= data.size_x,
                x_run == nx - x,
                mask@.len() == data.blocks@.len(),
            decreases data.size_x - nx,
        {
            if data.texture(nx, y, z) != block {
                break ;
            }
            if !data.block_meta(nx, y, z + 1).is_transparent() {
                break ;
            }
            let mi = data.get_index(nx, y, z);
            let mut f = mask[mi];
            if f.back() {
                break ;
            }
            f.set_back();
            mask[mi] = f;
            x_run = x_run + 1;
            nx = nx + 1;
        }
        let mut y_run: u32 = 1;
        let mut ny: u32 = y + 1;
        while ny < data.size_y
            invariant
                data.wf(),
                data.spec_in_bounds(x, y, z),
                x_run >= 1,
                x + x_run <= data.size_x,
                y < ny <= data.size_y,
                y_run == ny - y,
                mask@.len() == data.blocks@.len(),
            ensures
                y < ny <= data.size_y,
                y_run == ny - y,
                mask@.len() == data.blocks@.len(),
            decreases data.size_y - ny,
        {
            let mut row_ok = true;
            let mut cw: u32 = x;
            while cw < x + x_run
                invariant
                    data.wf(),
                    data.spec_in_bounds(x, y, z),
                    x_run >= 1,
                    x + x_run <= data.size_x,
                    y < ny < data.size_y,
                    x <= cw <= x + x_run,
                    mask@.len() == data.blocks@.len(),
                ensures
                    mask@.len() == data.blocks@.len(),
                decreases x + x_run - cw,
            {
                if data.texture(cw, ny, z) != block {
                    row_ok = false;
                    break ;
                }
                if !data.block_meta(cw, ny, z + 1).is_transparent() {
                    row_ok = false;
                    break ;
                }
                let mi = data.get_index(cw, ny, z);
                if mask[mi].back() {
                    row_ok = false;
                    break ;
                }
                cw = cw + 1;
            }
            if !row_ok {
                break ;
            }
            let mut cw2: u32 = x;
            while cw2 < x + x_run
                invariant
                    data.wf(),
                    data.spec_in_bounds(x, y, z),
                    x_run >= 1,
                    x + x_run <= data.size_x,
                    y < ny < data.size_y,
                    x <= cw2 <= x + x_run,
                    mask@.len() == data.blocks@.len(),
                decreases x + x_run - cw2,
            {
                let mi = data.get_index(cw2, ny, z);
                let mut f = mask[mi];
                f.set_back();
                mask[mi] = f;
                cw2 = cw2 + 1;
            }
            y_run = y_run + 1;
            ny = ny + 1;
        }
        if x_run > *long_x {
            *long_x = x_run;
        }
        if y_run > *long_y {
            *long_y = y_run;
        }
        if *long_z < 1 {
            *long_z = 1;
        }
        if x_run > 1 || y_run > 1 {
            out.add_run(
                Vertex::LeftBottomBack,
                Vertex::RightBottomBack,
                Vertex::RightTopBack,
                Vertex::LeftTopBack,
                x_run as u8,
                y_run as u8,
                1,
            );
        } else {
            out.add_face(
                Vertex::LeftBottomBack,
                Vertex::RightBottomBack,
                Vertex::RightTopBack,
                Vertex::LeftTopBack,
            );
        }
    }
}



/// Emits every still-uncovered face of one voxel into `out`: each face
/// whose coverage bit in `current` is clear is tested for visibility and,
/// if visible, merged greedily into a run and emitted as one quad. The
/// coverage bits of `current` are all set afterwards, and the
/// accumulated run extents widen to cover every emitted quad.
#[verifier::rlimit(100)]
fn emit_faces(
    data: &ChunkData,
    mask: &mut Vec<Face>,
    out: &mut VertexSet,
    current: &mut Face,
    x: u32,
    y: u32,
    z: u32,
    block: u32,
    long_x: &mut u32,
    long_y: &mut u32,
    long_z: &mut u32,
)
    requires
        data.wf(),
        data.spec_in_bounds(x, y, z),
        old(mask)@.len() == data.blocks@.len(),
        old(out).wf(),
        old(out).vertexs@.len() == 0,
        old(out).indices@.len() == 0,
        *old(long_x) == 0,
        *old(long_y) == 0,
        *old(long_z) == 0,
    ensures
        final(mask)@.len() == old(mask)@.len(),
        final(out).wf(),
        final(out).vertexs@.len() <= 24,
        final(out).indices@.len() % 6 == 0,
        final(out).indices@.len() <= 36,
        final(out).indices@.len() == 0 ==> final(mask)@ == old(mask)@,
        old(current).0 == 0 && spec_visible_voxel(*data, x, y, z) ==> final(out).indices@.len()
            >= 6,
        forall|k: int|
            0 <= k < final(out).vertexs@.len() ==> run_fits(
                #[trigger] final(out).vertexs@[k],
                x,
                y,
                z,
                data.size_x,
                data.size_y,
                data.size_z,
            ),
        forall|k: int|
            0 <= k < final(out).vertexs@.len() ==> runs_within(
                #[trigger] final(out).vertexs@[k],
                *final(long_x),
                *final(long_y),
                *final(long_z),
            ),
        *final(long_x) <= 16 && *final(long_y) <= 16 && *final(long_z) <= 16,
{
    proof {
        assert(((0u8 | 0x01) == 0x01) && ((0x01u8 | 0x02) == 0x03) && ((0x03u8 | 0x04) == 0x07)
            && ((0x07u8 | 0x08) == 0x0f) && ((0x0fu8 | 0x20) == 0x2f) && ((0x2fu8 | 0x10) == 0x3f))
            by (bit_vector);
        assert(((0u8 & 0x01) == 0) && ((0x01u8 & 0x02) == 0) && ((0x03u8 & 0x04) == 0) && ((0x07u8
            & 0x08) == 0) && ((0x0fu8 & 0x20) == 0) && ((0x2fu8 & 0x10) == 0)) by (bit_vector);
    }
    if !current.top() {
        emit_top(data, mask, out, x, y, z, block, long_x, long_y, long_z);
        current.set_top();
    }
    let ghost n1 = out.indices@.len();
    if !current.bottom() {
        emit_bottom(data, mask, out, x, y, z, block, long_x, long_y, long_z);
        current.set_bottom();
    }
    let ghost n2 = out.indices@.len();
    if !current.left() {
        emit_left(data, mask, out, x, y, z, block, long_x, long_y, long_z);
        current.set_left();
    }
    let ghost n3 = out.indices@.len();
    if !current.right() {
        emit_right(data, mask, out, x, y, z, block, long_x, long_y, long_z);
        current.set_right();
    }
    let ghost n4 = out.indices@.len();
    if !current.front() {
        emit_front(data, mask, out, x, y, z, block, long_x, long_y, long_z);
        current.set_front();
    }
    let ghost n5 = out.indices@.len();
    if !current.back() {
        emit_back(data, mask, out, x, y, z, block, long_x, long_y, long_z);
        current.set_back();
    }
    proof {
        assert(n1 <= n2 <= n3 <= n4 <= n5 <= out.indices@.len());
        if old(current).0 == 0 && spec_visible_voxel(*data, x, y, z) {
            // every coverage bit was clear, so each of the six faces was
            // tested; the visible one forced its quad out
            if spec_top_visible(*data, x, y, z) {
                assert(n1 >= 6);
            } else if spec_bottom_visible(*data, x, y, z) {
                assert(n2 >= 6);
            } else if spec_left_visible(*data, x, y, z) {
                assert(n3 >= 6);
            } else if spec_right_visible(*data, x, y, z) {
                assert(n4 >= 6);
            } else if spec_front_visible(*data, x, y, z) {
                assert(n5 >= 6);
            } else {
                assert(spec_back_visible(*data, x, y, z));
                assert(out.indices@.len() >= 6);
            }
        }
    }
}

/// The GPU-ready output of one meshing pass: packed vertices, triangle
/// indices, and the bounding corners of the emitted geometry. When no
/// quad is emitted the bounds stay at their initial values, the chunk
/// shape for `min` and zero for `max`.
pub struct MeshOutput {
    pub vertices: Vec<u32>,
    pub indices: Vec<u32>,
    pub min: (u32, u32, u32),
    pub max: (u32, u32, u32),
}

/// The x position field of a packed vertex.
pub open spec fn vertex_x(v: u32) -> u32 {
    v & 0x1f
}

/// The y position field of a packed vertex.
pub open spec fn vertex_y(v: u32) -> u32 {
    (v >> 5) & 0x1f
}

/// The z position field of a packed vertex.
pub open spec fn vertex_z(v: u32) -> u32 {
    (v >> 10) & 0x1f
}

/// The block-id field of a packed vertex.
pub open spec fn vertex_id(v: u32) -> u32 {
    v >> 18
}

/// A well-formed packed vertex for the deployed chunk shape: each
/// position field decodes to a corner coordinate inside the chunk
/// (`0 ..= 16`), the filler bits between the position and the block id
/// are clear, and so are the bits above the id.
pub open spec fn packed_in_range(v: u32) -> bool {
    &&& vertex_x(v) <= 16
    &&& vertex_y(v) <= 16
    &&& vertex_z(v) <= 16
    &&& (v >> 15) & 0x7 == 0
    &&& (v >> 26) == 0
}

/// The packed vertex's decoded position lies inside the axis-aligned box
/// `(x0, y0, z0) ..= (x1, y1, z1)`.
pub open spec fn in_box(v: u32, x0: u32, y0: u32, z0: u32, x1: u32, y1: u32, z1: u32) -> bool {
    &&& x0 <= vertex_x(v) <= x1
    &&& y0 <= vertex_y(v) <= y1
    &&& z0 <= vertex_z(v) <= z1
}

/// A voxel of the chunk together with run extents that keep a quad
/// rooted at it inside the grid.
pub open spec fn run_root(
    data: ChunkData,
    x: u32,
    y: u32,
    z: u32,
    xr: u8,
    yr: u8,
    zr: u8,
) -> bool {
    &&& data.spec_in_bounds(x, y, z)
    &&& 1 <= xr && 1 <= yr && 1 <= zr
    &&& x + (xr as u32) <= data.size_x
    &&& y + (yr as u32) <= data.size_y
    &&& z + (zr as u32) <= data.size_z
}

/// The vertex is a corner of a run quad rooted at some in-bounds voxel
/// of the chunk: its block-id field is that voxel's texture selector,
/// and each decoded position field is either the voxel's coordinate or
/// the coordinate plus that axis's run extent.
pub open spec fn emitted_vertex(data: ChunkData, v: u32) -> bool {
    exists|x: u32, y: u32, z: u32, xr: u8, yr: u8, zr: u8|
        {
            &&& #[trigger] run_root(data, x, y, z, xr, yr, zr)
            &&& data.spec_texture(x, y, z) == vertex_id(v)
            &&& (vertex_x(v) == x || vertex_x(v) == x + (xr as u32))
            &&& (vertex_y(v) == y || vertex_y(v) == y + (yr as u32))
            &&& (vertex_z(v) == z || vertex_z(v) == z + (zr as u32))
        }
}

/// Above every filled cell, walking up its column, there is a topmost
/// filled cell, and its top face is visible; so a chunk with any filled
/// cell owes the mesher at least one quad.
pub proof fn lemma_filled_column_has_visible(data: ChunkData, x: u32, y: u32, z: u32)
    requires
        data.wf(),
        data.spec_in_bounds(x, y, z),
        data.spec_block_meta(x, y, z) != BlockMeta::spec_empty(),
    ensures
        exists|x2: u32, y2: u32, z2: u32|
            data.spec_in_bounds(x2, y2, z2) && #[trigger] spec_visible_voxel(data, x2, y2, z2),
    decreases 16 - y,
{
    lemma_wf_dims(data);
    if data.spec_block_meta(x, (y + 1) as u32, z).spec_transparent() {
        assert(spec_visible_voxel(data, x, y, z));
    } else {
        // an opaque cell above is itself filled (the empty sentinel is
        // transparent) and in bounds (out-of-range reads are transparent)
        assert(data.spec_block_meta(x, (y + 1) as u32, z) != BlockMeta::spec_empty()) by {
            assert(BlockMeta::spec_empty().spec_transparent()) by (bit_vector);
        }
        assert(data.spec_in_bounds(x, (y + 1) as u32, z));
        lemma_filled_column_has_visible(data, x, (y + 1) as u32, z);
    }
}


/// Packing corner coordinates `0 ..= 16` and a block id into one 32-bit
/// vertex yields a well-formed packed vertex, and each field decodes to
/// what was packed.
pub proof fn lemma_pack_in_range(px: u32, py: u32, pz: u32, id: u32)
    by (bit_vector)
    requires
        px <= 16,
        py <= 16,
        pz <= 16,
        id <= 255,
    ensures
        packed_in_range(px | py << 5 | pz << 10 | id << 18),
        vertex_x(px | py << 5 | pz << 10 | id << 18) == px,
        vertex_y(px | py << 5 | pz << 10 | id << 18) == py,
        vertex_z(px | py << 5 | pz << 10 | id << 18) == pz,
        vertex_id(px | py << 5 | pz << 10 | id << 18) == id,
{
}


/// The two-triangle pattern of the quad that starts at index `m`.
proof fn lemma_quad_at(s: Seq<u32>, m: int)
    requires
        quad_pattern(s),
        0 <= m,
        m + 5 < s.len(),
        m % 6 == 0,
    ensures
        s[m] == s[m + 3],
        s[m + 2] == s[m + 4],
{
    assert(s[m] == s[m + 3] && s[m + 2] == s[m + 4]);
}

/// Appending a whole number of patterned quads, each index shifted by
/// one base offset, keeps the index buffer patterned.
proof fn lemma_pattern_after_copy(pre: Seq<u32>, local: Seq<u32>, post: Seq<u32>, base: u32)
    requires
        pre.len() % 6 == 0,
        quad_pattern(pre),
        quad_pattern(local),
        post.len() == pre.len() + local.len(),
        forall|j: int| 0 <= j < pre.len() ==> #[trigger] post[j] == pre[j],
        forall|j: int|
            pre.len() <= j < post.len() ==> #[trigger] post[j] == base + local[j - pre.len()],
    ensures
        quad_pattern(post),
{
    assert forall|n: int|
        0 <= n && n + 5 < post.len() && n % 6 == 0 implies (#[trigger] post[n]) == post[n + 3]
        && post[n + 2] == post[n + 4] by {
        if n + 5 < pre.len() {
            lemma_quad_at(pre, n);
            assert(post[n] == pre[n]);
            assert(post[n + 2] == pre[n + 2]);
            assert(post[n + 3] == pre[n + 3]);
            assert(post[n + 4] == pre[n + 4]);
        } else {
            assert(n >= pre.len());
            let m = n - pre.len();
            lemma_quad_at(local, m);
            assert(post[n] == base + local[m]);
            assert(post[n + 2] == base + local[m + 2]);
            assert(post[n + 3] == base + local[m + 3]);
            assert(post[n + 4] == base + local[m + 4]);
        }
    }
}

/// Processes one voxel of the scan: emits every still-uncovered visible
/// face (merged greedily into runs), updates the coverage mask and the
/// accumulated bounds, and appends the voxel's packed vertices and
/// triangle indices to the output buffers.
#[verifier::rlimit(100)]
fn mesh_voxel(
    data: &ChunkData,
    mask: &mut Vec<Face>,
    positions: &mut Vec<u32>,
    indices: &mut Vec<u32>,
    x: u32,
    y: u32,
    z: u32,
    min_x: &mut u32,
    min_y: &mut u32,
    min_z: &mut u32,
    max_x: &mut u32,
    max_y: &mut u32,
    max_z: &mut u32,
)
    requires
        data.wf(),
        data.spec_in_bounds(x, y, z),
        old(mask)@.len() == data.blocks@.len(),
        forall|k: int|
            0 <= k < old(indices)@.len() ==> (#[trigger] old(indices)@[k] as int)
                < old(positions)@.len(),
        old(indices)@.len() % 6 == 0,
        quad_pattern(old(indices)@),
        old(positions)@.len() <= 98280,
        forall|k: int|
            0 <= k < old(positions)@.len() ==> packed_in_range(#[trigger] old(positions)@[k])
                && emitted_vertex(*data, old(positions)@[k]),
        forall|k: int|
            0 <= k < old(positions)@.len() ==> in_box(
                #[trigger] old(positions)@[k],
                *old(min_x),
                *old(min_y),
                *old(min_z),
                *old(max_x),
                *old(max_y),
                *old(max_z),
            ),
        *old(min_x) <= 16 && *old(min_y) <= 16 && *old(min_z) <= 16,
        *old(max_x) <= 32 && *old(max_y) <= 32 && *old(max_z) <= 32,
    ensures
        final(mask)@.len() == old(mask)@.len(),
        forall|k: int|
            0 <= k < final(indices)@.len() ==> (#[trigger] final(indices)@[k] as int)
                < final(positions)@.len(),
        final(indices)@.len() % 6 == 0,
        quad_pattern(final(indices)@),
        old(indices)@.len() <= final(indices)@.len() <= old(indices)@.len() + 36,
        old(positions)@.len() <= final(positions)@.len() <= old(positions)@.len() + 24,
        forall|k: int|
            0 <= k < final(positions)@.len() ==> packed_in_range(#[trigger] final(positions)@[k])
                && emitted_vertex(*data, final(positions)@[k]),
        data.spec_all_empty() ==> final(positions)@.len() == old(positions)@.len()
            && final(indices)@.len() == old(indices)@.len(),
        data.spec_all_empty() ==> *final(min_x) == *old(min_x) && *final(min_y) == *old(min_y)
            && *final(min_z) == *old(min_z) && *final(max_x) == *old(max_x) && *final(max_y)
            == *old(max_y) && *final(max_z) == *old(max_z),
        *final(min_x) <= 16 && *final(min_y) <= 16 && *final(min_z) <= 16,
        *final(max_x) <= 32 && *final(max_y) <= 32 && *final(max_z) <= 32,
        *final(min_x) <= *old(min_x) && *final(min_y) <= *old(min_y) && *final(min_z) <= *old(
            min_z,
        ),
        *final(max_x) >= *old(max_x) && *final(max_y) >= *old(max_y) && *final(max_z) >= *old(
            max_z,
        ),
        forall|k: int|
            0 <= k < final(positions)@.len() ==> in_box(
                #[trigger] final(positions)@[k],
                *final(min_x),
                *final(min_y),
                *final(min_z),
                *final(max_x),
                *final(max_y),
                *final(max_z),
            ),
        final(indices)@.len() == old(indices)@.len() ==> forall|j: int|
            0 <= j < final(mask)@.len() && j != data.spec_cell_index(x, y, z)
                ==> #[trigger] final(mask)@[j] == old(mask)@[j],
        old(indices)@.len() == 0 && old(mask)@[data.spec_cell_index(x, y, z)].0 == 0
            && spec_visible_voxel(*data, x, y, z) ==> final(indices)@.len() >= 6,
{
    let meta = data.block_meta(x, y, z);
    if !(meta == BlockMeta::empty()) {
        proof {
            if data.spec_all_empty() {
                assert(data.spec_block_meta(x, y, z) == BlockMeta::spec_empty());
            }
        }
        let ci = data.get_index(x, y, z);
        let mut current: Face = mask[ci];
        if !current.all() {
            let mut m_block = VertexSet::new();
            let mut long_x: u32 = 0;
            let mut long_y: u32 = 0;
            let mut long_z: u32 = 0;
            let block = data.texture(x, y, z);
            emit_faces(
                data,
                mask,
                &mut m_block,
                &mut current,
                x,
                y,
                z,
                block,
                &mut long_x,
                &mut long_y,
                &mut long_z,
            );
            mask[ci] = current;
            let id = data.texture(x, y, z);
            if x < *min_x {
                *min_x = x;
            }
            if y < *min_y {
                *min_y = y;
            }
            if z < *min_z {
                *min_z = z;
            }
            if x + long_x > *max_x {
                *max_x = x + long_x;
            }
            if y + long_y > *max_y {
                *max_y = y + long_y;
            }
            if z + long_z > *max_z {
                *max_z = z + long_z;
            }
            let base = positions.len() as u32;
            let ghost base0 = positions@.len() as int;
            let mut vk: usize = 0;
            while vk < m_block.vertexs.len()
                invariant
                    data.wf(),
                    data.size_x == 16 && data.size_y == 16 && data.size_z == 16,
                    x < 16 && y < 16 && z < 16,
                    id <= 255,
                    m_block.wf(),
                    m_block.vertexs@.len() <= 24,
                    forall|k: int|
                        0 <= k < m_block.vertexs@.len() ==> run_fits(
                            #[trigger] m_block.vertexs@[k],
                            x,
                            y,
                            z,
                            data.size_x,
                            data.size_y,
                            data.size_z,
                        ),
                    vk <= m_block.vertexs@.len(),
                    positions@.len() == base0 + vk,
                    base0 == base as int,
                    base0 <= 98280,
                    id == data.spec_texture(x, y, z),
                    forall|k: int|
                        0 <= k < positions@.len() ==> packed_in_range(#[trigger] positions@[k])
                            && emitted_vertex(*data, positions@[k]),
                    forall|k: int|
                        0 <= k < m_block.vertexs@.len() ==> runs_within(
                            #[trigger] m_block.vertexs@[k],
                            long_x,
                            long_y,
                            long_z,
                        ),
                    *min_x <= x && *min_y <= y && *min_z <= z,
                    x + long_x <= *max_x && y + long_y <= *max_y && z + long_z <= *max_z,
                    *min_x <= 16 && *min_y <= 16 && *min_z <= 16,
                    *max_x <= 32 && *max_y <= 32 && *max_z <= 32,
                    forall|k: int|
                        0 <= k < positions@.len() ==> in_box(
                            #[trigger] positions@[k],
                            *min_x,
                            *min_y,
                            *min_z,
                            *max_x,
                            *max_y,
                            *max_z,
                        ),
                decreases m_block.vertexs@.len() - vk,
            {
                let e = m_block.vertexs[vk];
                let p = e.0.to_pos(e.1, e.2, e.3);
                let px = p.0 + x;
                let py = p.1 + y;
                let pz = p.2 + z;
                let bits = CHUNK_SIZE.bits_per_axis();
                proof {
                    assert(run_fits(
                        m_block.vertexs@[vk as int],
                        x,
                        y,
                        z,
                        data.size_x,
                        data.size_y,
                        data.size_z,
                    ));
                    lemma_pack_in_range(px, py, pz, id);
                }
                let packed = px | (py << bits) | (pz << (bits * 2)) | (id << (8 + bits * 2));
                proof {
                    assert(vertex_x(packed) == px && vertex_y(packed) == py && vertex_z(packed)
                        == pz && vertex_id(packed) == id);
                    assert(run_root(*data, x, y, z, e.1, e.2, e.3));
                    assert(data.spec_texture(x, y, z) == vertex_id(packed));
                    assert(p.0 == 0 || p.0 == e.1 as u32);
                    assert(p.1 == 0 || p.1 == e.2 as u32);
                    assert(p.2 == 0 || p.2 == e.3 as u32);
                    assert(emitted_vertex(*data, packed));
                }
                positions.push(packed);
                vk = vk + 1;
            }
            let ghost i0 = indices@.len() as int;
            let ghost ind0 = indices@;
            let mut ik: usize = 0;
            while ik < m_block.indices.len()
                invariant
                    m_block.wf(),
                    m_block.vertexs@.len() <= 24,
                    m_block.indices@.len() % 6 == 0,
                    ik <= m_block.indices@.len(),
                    base0 == base as int,
                    base0 <= 98280,
                    positions@.len() == base0 + m_block.vertexs@.len(),
                    indices@.len() == i0 + ik,
                    i0 % 6 == 0,
                    ind0.len() == i0,
                    quad_pattern(ind0),
                    forall|j: int| 0 <= j < i0 ==> (#[trigger] indices@[j]) == ind0[j],
                    forall|j: int|
                        i0 <= j < indices@.len() ==> (#[trigger] indices@[j]) == base
                            + m_block.indices@[j - i0],
                    forall|k: int|
                        0 <= k < indices@.len() ==> (#[trigger] indices@[k] as int)
                            < positions@.len(),
                    forall|k: int|
                        0 <= k < positions@.len() ==> packed_in_range(#[trigger] positions@[k])
                            && emitted_vertex(*data, positions@[k]),
                decreases m_block.indices@.len() - ik,
            {
                let iv = m_block.indices[ik];
                indices.push(base + iv);
                ik = ik + 1;
            }
            proof {
                lemma_pattern_after_copy(ind0, m_block.indices@, indices@, base);
            }
        }
    }
}

/// Converts a chunk into a mesh by greedy surface extraction: every
/// visible face is emitted exactly once, coplanar same-id faces are
/// merged into runs, and each vertex packs its corner position and block
/// id into 32 bits. The contract pins down that the mesh is non-empty
/// exactly when some cell of the chunk is filled; that every triangle
/// index points into the vertex buffer; that indices come in whole quads
/// following the fixed two-triangle pattern; and that every packed
/// vertex is well-formed, is a corner of a run quad rooted at an
/// in-bounds voxel of its own block id, and lies inside the returned
/// bounding box, which covers each emitted voxel's position plus its
/// largest emitted run extents per axis. Which runs the greedy scan
/// merges is order-dependent policy, exercised by the tests.
pub fn make_mesh(data: &ChunkData) -> (r: MeshOutput)
    requires
        data.wf(),
    ensures
        forall|k: int|
            0 <= k < r.indices@.len() ==> (#[trigger] r.indices@[k] as int) < r.vertices@.len(),
        r.indices@.len() % 6 == 0,
        quad_pattern(r.indices@),
        forall|k: int|
            0 <= k < r.vertices@.len() ==> packed_in_range(#[trigger] r.vertices@[k])
                && emitted_vertex(*data, r.vertices@[k]),
        r.vertices@.len() <= 98304,
        r.indices@.len() <= 147456,
        data.spec_all_empty() ==> r.vertices@.len() == 0 && r.indices@.len() == 0,
        r.min.0 <= 16 && r.min.1 <= 16 && r.min.2 <= 16,
        r.max.0 <= 32 && r.max.1 <= 32 && r.max.2 <= 32,
        data.spec_all_empty() ==> r.min == (data.size_x, data.size_y, data.size_z) && r.max == (
            0u32,
            0u32,
            0u32,
        ),
        forall|k: int|
            0 <= k < r.vertices@.len() ==> in_box(
                #[trigger] r.vertices@[k],
                r.min.0,
                r.min.1,
                r.min.2,
                r.max.0,
                r.max.1,
                r.max.2,
            ),
        (exists|x: u32, y: u32, z: u32|
            data.spec_in_bounds(x, y, z) && #[trigger] spec_visible_voxel(*data, x, y, z))
            ==> r.indices@.len() >= 6 && r.vertices@.len() >= 1,
        !data.spec_all_empty() ==> r.indices@.len() >= 6 && r.vertices@.len() >= 1,
{
    proof {
        lemma_wf_dims(*data);
    }
    let mut min_x = data.size_x;
    let mut min_y = data.size_y;
    let mut min_z = data.size_z;
    let mut max_x: u32 = 0;
    let mut max_y: u32 = 0;
    let mut max_z: u32 = 0;
    let mut positions: Vec<u32> = Vec::new();
    let mut indices: Vec<u32> = Vec::new();
    let mut mask: Vec<Face> = crate::chunk::filled(Face(0), data.blocks.len());
    let mut y: u32 = 0;
    while y < data.size_y
        invariant
            data.wf(),
            data.size_x == 16 && data.size_y == 16 && data.size_z == 16,
            y <= 16,
            mask@.len() == data.blocks@.len(),
            forall|k: int|
                0 <= k < indices@.len() ==> (#[trigger] indices@[k] as int) < positions@.len(),
            indices@.len() % 6 == 0,
            quad_pattern(indices@),
            positions@.len() <= 24 * (y * 256),
            indices@.len() == 0 ==> forall|j: int|
                y * 256 <= j < 4096 ==> (#[trigger] mask@[j]).0 == 0,
            indices@.len() == 0 ==> forall|x2: u32, y2: u32, z2: u32|
                #![trigger spec_visible_voxel(*data, x2, y2, z2)]
                data.spec_in_bounds(x2, y2, z2) && y2 * 256 + z2 * 16 + x2 < y * 256
                    ==> !spec_visible_voxel(*data, x2, y2, z2),
            indices@.len() <= 36 * (y * 256),
            forall|k: int|
                0 <= k < positions@.len() ==> packed_in_range(#[trigger] positions@[k])
                    && emitted_vertex(*data, positions@[k]),
            data.spec_all_empty() ==> positions@.len() == 0 && indices@.len() == 0,
            min_x <= 16 && min_y <= 16 && min_z <= 16,
            max_x <= 32 && max_y <= 32 && max_z <= 32,
                    data.spec_all_empty() ==> min_x == 16 && min_y == 16 && min_z == 16 && max_x == 0
                && max_y == 0 && max_z == 0,
            forall|k: int|
                0 <= k < positions@.len() ==> in_box(
                    #[trigger] positions@[k],
                    min_x,
                    min_y,
                    min_z,
                    max_x,
                    max_y,
                    max_z,
                ),
        decreases 16 - y,
    {
        let mut z: u32 = 0;
        while z < data.size_z
            invariant
                data.wf(),
                data.size_x == 16 && data.size_y == 16 && data.size_z == 16,
                y < 16,
                z <= 16,
                mask@.len() == data.blocks@.len(),
                forall|k: int|
                    0 <= k < indices@.len() ==> (#[trigger] indices@[k] as int) < positions@.len(),
                indices@.len() % 6 == 0,
                quad_pattern(indices@),
                positions@.len() <= 24 * (y * 256 + z * 16),
                indices@.len() == 0 ==> forall|j: int|
                    y * 256 + z * 16 <= j < 4096 ==> (#[trigger] mask@[j]).0 == 0,
                indices@.len() == 0 ==> forall|x2: u32, y2: u32, z2: u32|
                    #![trigger spec_visible_voxel(*data, x2, y2, z2)]
                    data.spec_in_bounds(x2, y2, z2) && y2 * 256 + z2 * 16 + x2 < y * 256 + z * 16
                        ==> !spec_visible_voxel(*data, x2, y2, z2),
                indices@.len() <= 36 * (y * 256 + z * 16),
                forall|k: int|
                    0 <= k < positions@.len() ==> packed_in_range(#[trigger] positions@[k])
                        && emitted_vertex(*data, positions@[k]),
                data.spec_all_empty() ==> positions@.len() == 0 && indices@.len() == 0,
                min_x <= 16 && min_y <= 16 && min_z <= 16,
                max_x <= 32 && max_y <= 32 && max_z <= 32,
                            data.spec_all_empty() ==> min_x == 16 && min_y == 16 && min_z == 16 && max_x == 0
                    && max_y == 0 && max_z == 0,
                forall|k: int|
                    0 <= k < positions@.len() ==> in_box(
                        #[trigger] positions@[k],
                        min_x,
                        min_y,
                        min_z,
                        max_x,
                        max_y,
                        max_z,
                    ),
            decreases 16 - z,
        {
            let mut x: u32 = 0;
            while x < data.size_x
                invariant
                    data.wf(),
                    data.size_x == 16 && data.size_y == 16 && data.size_z == 16,
                    y < 16,
                    z < 16,
                    x <= 16,
                    mask@.len() == data.blocks@.len(),
                    forall|k: int|
                        0 <= k < indices@.len() ==> (#[trigger] indices@[k] as int)
                            < positions@.len(),
                    indices@.len() % 6 == 0,
                    quad_pattern(indices@),
                    positions@.len() <= 24 * (y * 256 + z * 16 + x),
                    indices@.len() == 0 ==> forall|j: int|
                        y * 256 + z * 16 + x <= j < 4096 ==> (#[trigger] mask@[j]).0 == 0,
                    indices@.len() == 0 ==> forall|x2: u32, y2: u32, z2: u32|
                        #![trigger spec_visible_voxel(*data, x2, y2, z2)]
                        data.spec_in_bounds(x2, y2, z2) && y2 * 256 + z2 * 16 + x2 < y * 256 + z
                            * 16 + x ==> !spec_visible_voxel(*data, x2, y2, z2),
                    indices@.len() <= 36 * (y * 256 + z * 16 + x),
                    forall|k: int|
                        0 <= k < positions@.len() ==> packed_in_range(#[trigger] positions@[k])
                            && emitted_vertex(*data, positions@[k]),
                    data.spec_all_empty() ==> positions@.len() == 0 && indices@.len() == 0,
                    min_x <= 16 && min_y <= 16 && min_z <= 16,
                    max_x <= 32 && max_y <= 32 && max_z <= 32,
                                    data.spec_all_empty() ==> min_x == 16 && min_y == 16 && min_z == 16 && max_x == 0
                        && max_y == 0 && max_z == 0,
                    forall|k: int|
                        0 <= k < positions@.len() ==> in_box(
                            #[trigger] positions@[k],
                            min_x,
                            min_y,
                            min_z,
                            max_x,
                            max_y,
                            max_z,
                        ),
                decreases 16 - x,
            {
                let ghost i_pre = indices@.len();
                let ghost mask_pre = mask@;
                proof {
                    lemma_index_range(*data, x, y, z);
                }
                mesh_voxel(
                    data,
                    &mut mask,
                    &mut positions,
                    &mut indices,
                    x,
                    y,
                    z,
                    &mut min_x,
                    &mut min_y,
                    &mut min_z,
                    &mut max_x,
                    &mut max_y,
                    &mut max_z,
                );
                proof {
                    if indices@.len() == 0 {
                        assert(i_pre == 0);
                        assert forall|j: int|
                            y * 256 + z * 16 + x + 1 <= j < 4096 implies (
                        #[trigger] mask@[j]).0 == 0 by {
                            assert(j != data.spec_cell_index(x, y, z));
                            assert(mask@[j] == mask_pre[j]);
                        }
                        assert forall|x2: u32, y2: u32, z2: u32|
                            #![trigger spec_visible_voxel(*data, x2, y2, z2)]
                            data.spec_in_bounds(x2, y2, z2) && y2 * 256 + z2 * 16 + x2 < y * 256 + z
                                * 16 + x + 1 implies !spec_visible_voxel(*data, x2, y2, z2) by {
                            lemma_index_range(*data, x2, y2, z2);
                            if y2 * 256 + z2 * 16 + x2 == y * 256 + z * 16 + x {
                                lemma_index_injective(*data, x, y, z, x2, y2, z2);
                                // the current voxel: its coverage mask was
                                // clear and no quad came out, so no face of
                                // it was visible
                                assert(mask_pre[data.spec_cell_index(x, y, z)].0 == 0);
                            }
                        }
                    }
                }
                x = x + 1;
            }
            z = z + 1;
        }
        y = y + 1;
    }
    proof {
        if !data.spec_all_empty() {
            let (ax, ay, az) = choose|ax: u32, ay: u32, az: u32|
                data.spec_in_bounds(ax, ay, az) && #[trigger] data.spec_block_meta(ax, ay, az)
                    != BlockMeta::spec_empty();
            lemma_filled_column_has_visible(*data, ax, ay, az);
        }
        if exists|x2: u32, y2: u32, z2: u32|
            data.spec_in_bounds(x2, y2, z2) && #[trigger] spec_visible_voxel(*data, x2, y2, z2) {
            let (vx2, vy2, vz2) = choose|x2: u32, y2: u32, z2: u32|
                data.spec_in_bounds(x2, y2, z2) && #[trigger] spec_visible_voxel(
                    *data,
                    x2,
                    y2,
                    z2,
                );
            lemma_index_range(*data, vx2, vy2, vz2);
            if indices@.len() == 0 {
                assert(!spec_visible_voxel(*data, vx2, vy2, vz2));
            }
            assert(indices@.len() >= 6);
            assert((indices@[0] as int) < positions@.len());
        }
    }
    MeshOutput {
        vertices: positions,
        indices,
        min: (min_x, min_y, min_z),
        max: (max_x, max_y, max_z),
    }
}
} // verus!
