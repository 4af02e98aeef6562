use vstd::prelude::*;

verus! {

/// Compact descriptor of a block type, consulted by the mesher:
/// bit 0 records whether the block is solid, bit 1 whether it is opaque.
#[derive(Debug, Clone, Copy, PartialEq, Eq, Structural)]
pub struct BlockMeta(pub u8);

impl BlockMeta {
    /// The metadata of empty space: not solid, fully transparent.
    pub open spec fn spec_empty() -> BlockMeta {
        BlockMeta(0)
    }

    pub fn empty() -> (r: BlockMeta)
        ensures
            r == BlockMeta::spec_empty(),
    {
        BlockMeta(0)
    }

    pub open spec fn spec_solid(self) -> bool {
        self.0 & 0x01 != 0
    }

    pub open spec fn spec_transparent(self) -> bool {
        self.0 & 0x02 == 0
    }

    pub fn is_solid(&self) -> (r: bool)
        ensures
            r == self.spec_solid(),
    {
        self.0 & 0x01 != 0
    }

    pub fn is_transparent(&self) -> (r: bool)
        ensures
            r == self.spec_transparent(),
    {
        self.0 & 0x02 == 0
    }

    /// The metadata derived from a block type's classification.
    pub open spec fn spec_from(solid: bool, transparent: bool) -> BlockMeta {
        BlockMeta((if solid { 1u8 } else { 0u8 }) | (if !transparent { 2u8 } else { 0u8 }))
    }

    pub fn from_block<T: Block>(block: T) -> (r: BlockMeta)
        ensures
            r == BlockMeta::spec_from(block.spec_solid(), block.spec_transparent()),
    {
        let a: u8 = if block.is_solid() { 1u8 } else { 0u8 };
        let b: u8 = if !block.is_transparent() { 2u8 } else { 0u8 };
        BlockMeta(a | b)
    }
}

/// The two classification bits round-trip through the packed metadata,
/// and the packed metadata equals the empty sentinel exactly for
/// non-solid transparent block types.
pub proof fn lemma_meta_from_bits(solid: bool, transparent: bool)
    ensures
        BlockMeta::spec_from(solid, transparent).spec_solid() == solid,
        BlockMeta::spec_from(solid, transparent).spec_transparent() == transparent,
        (BlockMeta::spec_from(solid, transparent) == BlockMeta::spec_empty()) == (!solid
            && transparent),
{
    if solid {
        if transparent {
            assert((1u8 | 0u8) == 1u8 && 1u8 & 0x01 != 0 && 1u8 & 0x02 == 0) by (bit_vector);
        } else {
            assert((1u8 | 2u8) == 3u8 && 3u8 & 0x01 != 0 && 3u8 & 0x02 != 0) by (bit_vector);
        }
    } else {
        if transparent {
            assert((0u8 | 0u8) == 0u8 && 0u8 & 0x01 == 0 && 0u8 & 0x02 == 0) by (bit_vector);
        } else {
            assert((0u8 | 2u8) == 2u8 && 2u8 & 0x01 == 0 && 2u8 & 0x02 != 0) by (bit_vector);
        }
    }
}

/// A block type supplied by the host: an 8-bit identifier plus the
/// classification bits the mesher needs. Implementations outside this
/// crate are not checked against the `ensures` clauses; they only promise
/// that each call agrees with the implementation's own spec functions.
pub trait Block: Sized + Copy {
    spec fn spec_id(&self) -> u8;

    spec fn spec_solid(&self) -> bool;

    spec fn spec_transparent(&self) -> bool;

    fn id(&self) -> (r: u8)
        ensures
            r == self.spec_id(),
    ;

    fn is_solid(&self) -> (r: bool)
        ensures
            r == self.spec_solid(),
    ;

    fn is_transparent(&self) -> (r: bool)
        ensures
            r == self.spec_transparent(),
    ;
}

/// A simple wrapper around a `u8` that identifies a block type and
/// doubles as its texture selector.
#[derive(Debug, Clone, Copy, PartialEq, Eq, Structural)]
pub struct BlockId(pub u8);

impl Default for BlockId {
    fn default() -> (r: Self)
        ensures
            r.0 == 0,
    {
        BlockId(0)
    }
}

} // verus!
