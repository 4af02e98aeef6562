use vstd::prelude::*;

use crate::block::{Block, BlockId, BlockMeta};

pub mod manager;
pub mod mesh_gen;
pub mod utils;

verus! {

/// The edge length of every chunk in this deployment.
pub const CHUNK_SIZE: ChunkSize = ChunkSize::Medium;

/// The supported chunk edge lengths.
#[derive(Debug, Clone, Copy, PartialEq, Eq, Structural)]
pub enum ChunkSize {
    Small,
    Medium,
    Large,
}

impl ChunkSize {
    pub open spec fn spec_size(&self) -> u32 {
        match self {
            ChunkSize::Small => 8,
            ChunkSize::Medium => 16,
            ChunkSize::Large => 32,
        }
    }

    /// Edge length of a chunk, in voxels.
    #[verifier::when_used_as_spec(spec_size)]
    pub fn size(&self) -> (r: u32)
        ensures
            r == self.spec_size(),
    {
        match self {
            ChunkSize::Small => 8,
            ChunkSize::Medium => 16,
            ChunkSize::Large => 32,
        }
    }

    /// Voxels in one horizontal slice of a chunk.
    pub fn aria(&self) -> (r: u32)
        ensures
            r == self.spec_size() * self.spec_size(),
    {
        self.size() * self.size()
    }

    /// Voxels in a whole chunk.
    pub fn volume(&self) -> (r: u32)
        ensures
            r == self.spec_size() * self.spec_size() * self.spec_size(),
    {
        self.size() * self.size() * self.size()
    }

    pub open spec fn spec_bits_per_axis(&self) -> u32 {
        match self {
            ChunkSize::Small => 4,
            ChunkSize::Medium => 5,
            ChunkSize::Large => 6,
        }
    }

    /// Bits needed to store one coordinate of a vertex position: corner
    /// coordinates range over `0 ..= size`, inclusive.
    #[verifier::when_used_as_spec(spec_bits_per_axis)]
    pub fn bits_per_axis(&self) -> (r: u32)
        ensures
            r == self.spec_bits_per_axis(),
    {
        match self {
            ChunkSize::Small => 4,
            ChunkSize::Medium => 5,
            ChunkSize::Large => 6,
        }
    }
}

/// A `Vec` holding `n` copies of `v`.
pub(crate) fn filled<T: Copy>(v: T, n: usize) -> (r: Vec<T>)
    ensures
        r@.len() == n,
        forall|i: int| 0 <= i < n ==> r@[i] == v,
{
    let mut r: Vec<T> = Vec::new();
    let mut k: usize = 0;
    while k < n
        invariant
            k <= n,
            r@.len() == k,
            forall|i: int| 0 <= i < k ==> r@[i] == v,
        decreases n - k,
    {
        r.push(v);
        k = k + 1;
    }
    r
}

/// A fixed-shape grid of block identifiers plus a bounded palette of the
/// metadata of every block type that has been written into the grid.
#[derive(Debug, Clone)]
pub struct ChunkData {
    pub blocks: Vec<BlockId>,
    pub block_meta: Vec<BlockMeta>,
    pub meta_fills: Vec<bool>,
    pub size_x: u32,
    pub size_y: u32,
    pub size_z: u32,
}

impl ChunkData {
    /// Well-formedness: the grid has the deployment's fixed shape, the
    /// palette and its occupancy set have one slot per possible id, and
    /// every cell's id has a populated palette slot.
    pub open spec fn wf(self) -> bool {
        &&& self.size_x == CHUNK_SIZE.spec_size()
        &&& self.size_y == CHUNK_SIZE.spec_size()
        &&& self.size_z == CHUNK_SIZE.spec_size()
        &&& self.blocks@.len() == self.size_x * self.size_y * self.size_z
        &&& self.block_meta@.len() == 256
        &&& self.meta_fills@.len() == 256
        &&& forall|i: int|
            0 <= i < self.blocks@.len() ==> self.meta_fills@[(#[trigger] self.blocks@[i]).0 as int]
    }

    pub open spec fn spec_in_bounds(self, x: u32, y: u32, z: u32) -> bool {
        x < self.size_x && y < self.size_y && z < self.size_z
    }

    pub open spec fn spec_cell_index(self, x: u32, y: u32, z: u32) -> int {
        y * (self.size_z * self.size_x) + z * self.size_x + x
    }

    /// The id stored in an in-bounds cell.
    pub open spec fn spec_cell_id(self, x: u32, y: u32, z: u32) -> u8 {
        self.blocks@[self.spec_cell_index(x, y, z)].0
    }

    /// The metadata a read at these coordinates yields: the palette entry
    /// of the cell's id in bounds, the empty sentinel out of bounds.
    pub open spec fn spec_block_meta(self, x: u32, y: u32, z: u32) -> BlockMeta {
        if self.spec_in_bounds(x, y, z) {
            self.block_meta@[self.spec_cell_id(x, y, z) as int]
        } else {
            BlockMeta::spec_empty()
        }
    }

    /// The texture selector a read at these coordinates yields: the raw
    /// cell id in bounds, zero out of bounds.
    pub open spec fn spec_texture(self, x: u32, y: u32, z: u32) -> u32 {
        if self.spec_in_bounds(x, y, z) {
            self.spec_cell_id(x, y, z) as u32
        } else {
            0
        }
    }

    /// Every in-bounds cell reads as the empty sentinel.
    pub open spec fn spec_all_empty(self) -> bool {
        forall|x: u32, y: u32, z: u32|
            self.spec_in_bounds(x, y, z) ==> #[trigger] self.spec_block_meta(x, y, z)
                == BlockMeta::spec_empty()
    }

    /// A chunk with every cell reading as empty space: all ids zero, the
    /// palette empty, and only slot 0 (the implicit air slot) populated.
    pub fn empty() -> (r: ChunkData)
        ensures
            r.wf(),
            forall|i: int| 0 <= i < r.blocks@.len() ==> r.blocks@[i] == BlockId(0),
            forall|i: int| 0 <= i < 256 ==> r.block_meta@[i] == BlockMeta::spec_empty(),
            r.meta_fills@[0],
            forall|i: int| 1 <= i < 256 ==> !r.meta_fills@[i],
            r.spec_all_empty(),
    {
        let volume = CHUNK_SIZE.volume() as usize;
        let blocks = filled(BlockId(0), volume);
        let block_meta = filled(BlockMeta::empty(), 256);
        let mut meta_fills = filled(false, 256);
        meta_fills[0] = true;
        let r = ChunkData {
            blocks,
            block_meta,
            meta_fills,
            size_x: CHUNK_SIZE.size(),
            size_y: CHUNK_SIZE.size(),
            size_z: CHUNK_SIZE.size(),
        };
        assert forall|x: u32, y: u32, z: u32| r.spec_in_bounds(x, y, z) implies #[trigger] r
            .spec_block_meta(x, y, z) == BlockMeta::spec_empty() by {
            lemma_index_range(r, x, y, z);
        }
        r
    }

    /// A chunk with every cell holding `block`, and only its palette slot
    /// populated.
    pub fn solid<T: Block>(block: T) -> (r: ChunkData)
        ensures
            r.wf(),
            forall|i: int| 0 <= i < r.blocks@.len() ==> r.blocks@[i] == BlockId(block.spec_id()),
            r.block_meta@[block.spec_id() as int] == BlockMeta::spec_from(
                block.spec_solid(),
                block.spec_transparent(),
            ),
            forall|i: int|
                0 <= i < 256 && i != block.spec_id() as int ==> r.block_meta@[i]
                    == BlockMeta::spec_empty(),
            r.meta_fills@[block.spec_id() as int],
            forall|i: int| 0 <= i < 256 && i != block.spec_id() as int ==> !r.meta_fills@[i],
    {
        let id = block.id();
        let volume = CHUNK_SIZE.volume() as usize;
        let blocks = filled(BlockId(id), volume);
        let mut block_meta = filled(BlockMeta::empty(), 256);
        block_meta[id as usize] = BlockMeta::from_block(block);
        let mut meta_fills = filled(false, 256);
        meta_fills[id as usize] = true;
        ChunkData {
            blocks,
            block_meta,
            meta_fills,
            size_x: CHUNK_SIZE.size(),
            size_y: CHUNK_SIZE.size(),
            size_z: CHUNK_SIZE.size(),
        }
    }

    pub fn in_bounds(&self, x: u32, y: u32, z: u32) -> (r: bool)
        ensures
            r == self.spec_in_bounds(x, y, z),
    {
        x < self.size_x && y < self.size_y && z < self.size_z
    }

    /// Linear index of an in-bounds cell in the fixed scan layout.
    pub fn get_index(&self, x: u32, y: u32, z: u32) -> (r: usize)
        requires
            self.wf(),
            self.spec_in_bounds(x, y, z),
        ensures
            r == self.spec_cell_index(x, y, z),
            r < self.blocks@.len(),
    {
        proof {
            lemma_wf_dims(*self);
            lemma_index_range(*self, x, y, z);
            assert(y * (self.size_z * self.size_x) <= 3840 && z * self.size_x <= 240)
                by (nonlinear_arith)
                requires
                    self.size_x == 16,
                    self.size_z == 16,
                    self.size_z * self.size_x == 256,
                    y < 16,
                    z < 16,
            ;
        }
        (y * (self.size_z * self.size_x) + z * self.size_x + x) as usize
    }

    /// The id stored at the given coordinates, or `None` out of bounds.
    pub fn get_block_id(&self, x: u32, y: u32, z: u32) -> (r: Option<BlockId>)
        requires
            self.wf(),
        ensures
            self.spec_in_bounds(x, y, z) ==> r == Some(BlockId(self.spec_cell_id(x, y, z))),
            !self.spec_in_bounds(x, y, z) ==> r == None::<BlockId>,
    {
        if self.in_bounds(x, y, z) {
            let i = self.get_index(x, y, z);
            Some(self.blocks[i])
        } else {
            None
        }
    }

    /// The metadata stored for the given coordinates, or `None` out of
    /// bounds.
    pub fn get_block_meta(&self, x: u32, y: u32, z: u32) -> (r: Option<BlockMeta>)
        requires
            self.wf(),
        ensures
            self.spec_in_bounds(x, y, z) ==> r == Some(self.spec_block_meta(x, y, z)),
            !self.spec_in_bounds(x, y, z) ==> r == None::<BlockMeta>,
    {
        match self.get_block_id(x, y, z) {
            Some(id) => Some(self.block_meta[id.0 as usize]),
            None => None,
        }
    }

    /// Total read of block metadata: out-of-range coordinates yield the
    /// empty sentinel. This is the single boundary policy the mesher
    /// relies on.
    pub fn block_meta(&self, x: u32, y: u32, z: u32) -> (r: BlockMeta)
        requires
            self.wf(),
        ensures
            r == self.spec_block_meta(x, y, z),
            !self.spec_in_bounds(x, y, z) ==> r == BlockMeta::spec_empty(),
    {
        match self.get_block_meta(x, y, z) {
            Some(m) => m,
            None => BlockMeta::empty(),
        }
    }

    /// Total read of the texture selector: out-of-range coordinates yield
    /// zero.
    pub fn texture(&self, x: u32, y: u32, z: u32) -> (r: u32)
        requires
            self.wf(),
        ensures
            r == self.spec_texture(x, y, z),
            !self.spec_in_bounds(x, y, z) ==> r == 0,
    {
        if self.in_bounds(x, y, z) {
            let i = self.get_index(x, y, z);
            self.blocks[i].0 as u32
        } else {
            0
        }
    }

    /// The palette entry of a block id.
    pub fn palette_entry(&self, id: u8) -> (r: BlockMeta)
        requires
            self.wf(),
        ensures
            r == self.block_meta@[id as int],
    {
        self.block_meta[id as usize]
    }

    /// Whether a palette slot has been populated.
    pub fn palette_filled(&self, id: u8) -> (r: bool)
        requires
            self.wf(),
        ensures
            r == self.meta_fills@[id as int],
    {
        self.meta_fills[id as usize]
    }

    /// Registers the block's metadata in the palette at its id; a no-op if
    /// that slot is already populated.
    pub fn add_meta<T: Block>(&mut self, block: T)
        requires
            old(self).wf(),
        ensures
            final(self).wf(),
            final(self).blocks@ == old(self).blocks@,
            final(self).size_x == old(self).size_x,
            final(self).size_y == old(self).size_y,
            final(self).size_z == old(self).size_z,
            old(self).meta_fills@[block.spec_id() as int] ==> *final(self) == *old(self),
            !old(self).meta_fills@[block.spec_id() as int] ==> {
                &&& final(self).block_meta@ == old(self).block_meta@.update(
                    block.spec_id() as int,
                    BlockMeta::spec_from(block.spec_solid(), block.spec_transparent()),
                )
                &&& final(self).meta_fills@ == old(self).meta_fills@.update(
                    block.spec_id() as int,
                    true,
                )
            },
    {
        let id = block.id();
        if !self.meta_fills[id as usize] {
            self.block_meta[id as usize] = BlockMeta::from_block(block);
            self.meta_fills[id as usize] = true;
        }
    }

    /// Writes the cell at the given in-bounds coordinates, registering the
    /// block's metadata first.
    pub fn set_block<T: Block>(&mut self, x: u32, y: u32, z: u32, block: T)
        requires
            old(self).wf(),
            old(self).spec_in_bounds(x, y, z),
        ensures
            final(self).wf(),
            final(self).size_x == old(self).size_x,
            final(self).size_y == old(self).size_y,
            final(self).size_z == old(self).size_z,
            final(self).blocks@ == old(self).blocks@.update(
                old(self).spec_cell_index(x, y, z),
                BlockId(block.spec_id()),
            ),
            old(self).meta_fills@[block.spec_id() as int] ==> final(self).block_meta@ == old(
                self,
            ).block_meta@ && final(self).meta_fills@ == old(self).meta_fills@,
            !old(self).meta_fills@[block.spec_id() as int] ==> {
                &&& final(self).block_meta@ == old(self).block_meta@.update(
                    block.spec_id() as int,
                    BlockMeta::spec_from(block.spec_solid(), block.spec_transparent()),
                )
                &&& final(self).meta_fills@ == old(self).meta_fills@.update(
                    block.spec_id() as int,
                    true,
                )
            },
    {
        self.add_meta(block);
        let id = block.id();
        let index = self.get_index(x, y, z);
        self.blocks[index] = BlockId(id);
    }

    /// The number of cells whose palette entry is not the empty sentinel.
    pub fn voxel_count(&self) -> (r: usize)
        requires
            self.wf(),
        ensures
            r == count_filled(self.blocks@, self.block_meta@),
    {
        let mut count: usize = 0;
        let mut k: usize = 0;
        let n = self.blocks.len();
        while k < n
            invariant
                self.wf(),
                k <= n,
                n == self.blocks@.len(),
                count <= k,
                count == count_filled(self.blocks@.take(k as int), self.block_meta@),
            decreases n - k,
        {
            proof {
                assert(self.blocks@.take(k + 1).drop_last() == self.blocks@.take(k as int));
                assert(self.blocks@.take(k + 1).last() == self.blocks@[k as int]);
            }
            let id = self.blocks[k].0;
            let m = self.block_meta[id as usize];
            if !(m == BlockMeta::empty()) {
                count = count + 1;
            }
            k = k + 1;
        }
        proof {
            assert(self.blocks@.take(n as int) == self.blocks@);
        }
        count
    }
}

/// The number of cells of `blocks` whose palette entry in `palette` is not
/// the empty sentinel.
pub open spec fn count_filled(blocks: Seq<BlockId>, palette: Seq<BlockMeta>) -> int
    decreases blocks.len(),
{
    if blocks.len() == 0 {
        0
    } else {
        count_filled(blocks.drop_last(), palette) + if palette[blocks.last().0 as int]
            != BlockMeta::spec_empty() {
            1int
        } else {
            0int
        }
    }
}

/// A well-formed chunk has the fixed deployment dimensions.
pub proof fn lemma_wf_dims(c: ChunkData)
    requires
        c.wf(),
    ensures
        c.size_x == 16 && c.size_y == 16 && c.size_z == 16,
        c.size_z * c.size_x == 256,
        c.blocks@.len() == 4096,
{
    assert(c.size_x == 16 && c.size_y == 16 && c.size_z == 16);
    assert(c.size_z * c.size_x == 256) by (nonlinear_arith)
        requires
            c.size_z == 16,
            c.size_x == 16,
    ;
    assert(c.size_x * c.size_y * c.size_z == 4096) by (nonlinear_arith)
        requires
            c.size_x == 16,
            c.size_y == 16,
            c.size_z == 16,
    ;
}

/// The linear index of an in-bounds cell lies inside the grid.
pub proof fn lemma_index_range(c: ChunkData, x: u32, y: u32, z: u32)
    requires
        c.wf(),
        c.spec_in_bounds(x, y, z),
    ensures
        0 <= c.spec_cell_index(x, y, z) < c.blocks@.len(),
        c.spec_cell_index(x, y, z) == y * 256 + z * 16 + x,
{
    lemma_wf_dims(c);
    assert(y * (c.size_z * c.size_x) + z * c.size_x + x == y * 256 + z * 16 + x && y * 256 + z * 16
        + x < 4096) by (nonlinear_arith)
        requires
            c.size_x == 16,
            c.size_z == 16,
            c.size_z * c.size_x == 256,
            x < 16,
            y < 16,
            z < 16,
    ;
}

/// Reads are total at the boundary: coordinates outside the grid on any
/// axis yield the empty sentinel and the zero texture, for every chunk.
pub proof fn lemma_out_of_range_reads(c: ChunkData, x: u32, y: u32, z: u32)
    requires
        !c.spec_in_bounds(x, y, z),
    ensures
        c.spec_block_meta(x, y, z) == BlockMeta::spec_empty(),
        c.spec_texture(x, y, z) == 0,
{
}

/// A write reads back: after `set_block` stores block id `id` with
/// metadata `meta` at an in-bounds coordinate, reads at that coordinate
/// yield exactly `id` and `meta` until the cell is overwritten, and reads
/// at every other coordinate are unchanged. `pre` and `post` are related
/// exactly as `set_block`'s contract leaves them. The one proviso: if the
/// palette slot of `id` was already populated, it must hold `meta` (two
/// block types sharing an id with different metadata break the metadata
/// half of the claim).
pub proof fn lemma_set_block_round_trip(
    pre: ChunkData,
    post: ChunkData,
    x: u32,
    y: u32,
    z: u32,
    id: u8,
    meta: BlockMeta,
)
    requires
        pre.wf(),
        pre.spec_in_bounds(x, y, z),
        post.size_x == pre.size_x,
        post.size_y == pre.size_y,
        post.size_z == pre.size_z,
        post.blocks@ == pre.blocks@.update(pre.spec_cell_index(x, y, z), BlockId(id)),
        pre.meta_fills@[id as int] ==> post.block_meta@ == pre.block_meta@ && post.meta_fills@
            == pre.meta_fills@,
        !pre.meta_fills@[id as int] ==> post.block_meta@ == pre.block_meta@.update(id as int, meta)
            && post.meta_fills@ == pre.meta_fills@.update(id as int, true),
        pre.meta_fills@[id as int] ==> pre.block_meta@[id as int] == meta,
    ensures
        post.spec_block_meta(x, y, z) == meta,
        post.spec_texture(x, y, z) == id as u32,
        forall|x2: u32, y2: u32, z2: u32|
            pre.spec_in_bounds(x2, y2, z2) && (x2 != x || y2 != y || z2 != z)
                ==> #[trigger] post.spec_texture(x2, y2, z2) == pre.spec_texture(x2, y2, z2),
        forall|x2: u32, y2: u32, z2: u32|
            pre.spec_in_bounds(x2, y2, z2) && (x2 != x || y2 != y || z2 != z)
                ==> #[trigger] post.spec_block_meta(x2, y2, z2) == pre.spec_block_meta(x2, y2, z2),
{
    lemma_index_range(pre, x, y, z);
    assert(post.spec_cell_id(x, y, z) == id);
    assert forall|x2: u32, y2: u32, z2: u32|
        pre.spec_in_bounds(x2, y2, z2) && (x2 != x || y2 != y || z2 != z) implies #[trigger] post
        .spec_texture(x2, y2, z2) == pre.spec_texture(x2, y2, z2) by {
        lemma_index_range(pre, x2, y2, z2);
        if pre.spec_cell_index(x2, y2, z2) == pre.spec_cell_index(x, y, z) {
            lemma_index_injective(pre, x, y, z, x2, y2, z2);
        }
    }
    assert forall|x2: u32, y2: u32, z2: u32|
        pre.spec_in_bounds(x2, y2, z2) && (x2 != x || y2 != y || z2 != z) implies #[trigger] post
        .spec_block_meta(x2, y2, z2) == pre.spec_block_meta(x2, y2, z2) by {
        lemma_index_range(pre, x2, y2, z2);
        if pre.spec_cell_index(x2, y2, z2) == pre.spec_cell_index(x, y, z) {
            lemma_index_injective(pre, x, y, z, x2, y2, z2);
        }
        assert(post.spec_cell_id(x2, y2, z2) == pre.spec_cell_id(x2, y2, z2));
        // The cell's id has a populated palette slot, so even a write
        // that populates the slot of `id` leaves this cell's entry alone.
        assert(pre.meta_fills@[pre.spec_cell_id(x2, y2, z2) as int]);
    }
}

/// Distinct in-bounds coordinates have distinct linear indices.
pub proof fn lemma_index_injective(c: ChunkData, x: u32, y: u32, z: u32, x2: u32, y2: u32, z2: u32)
    requires
        c.wf(),
        c.spec_in_bounds(x, y, z),
        c.spec_in_bounds(x2, y2, z2),
        c.spec_cell_index(x, y, z) == c.spec_cell_index(x2, y2, z2),
    ensures
        x == x2 && y == y2 && z == z2,
{
    lemma_index_range(c, x, y, z);
    lemma_index_range(c, x2, y2, z2);
    assert(z * 16 + x < 256 && z2 * 16 + x2 < 256);
    assert(y == y2 && z == z2 && x == x2);
}

} // verus!
