use vstd::prelude::*;

verus! {

/// Walks every cell of a cubic chunk in the fixed scan order: x fastest,
/// then z, then y. The edge length is a compile-time constant.
pub struct BlockIter<const CHUNK_SIZE: usize> {
    pub x: usize,
    pub y: usize,
    pub z: usize,
}

impl<const CHUNK_SIZE: usize> BlockIter<CHUNK_SIZE> {
    /// The x and z coordinates stay inside the edge; y passes it by one
    /// step exactly when the walk is exhausted.
    pub open spec fn wf(self) -> bool {
        self.x < CHUNK_SIZE && self.z < CHUNK_SIZE && self.y <= CHUNK_SIZE
    }

    /// The number of cells yielded so far: the linear rank of the scan
    /// position in the fixed order, x fastest, then z, then y.
    pub open spec fn spec_ord(self) -> int {
        (self.y as int) * ((CHUNK_SIZE as int) * (CHUNK_SIZE as int)) + (self.z as int) * (
        CHUNK_SIZE as int) + (self.x as int)
    }

    /// The scan position after one step.
    pub open spec fn spec_step(self) -> BlockIter<CHUNK_SIZE> {
        if self.x + 1 < CHUNK_SIZE {
            BlockIter { x: (self.x + 1) as usize, y: self.y, z: self.z }
        } else if self.z + 1 < CHUNK_SIZE {
            BlockIter { x: 0, y: self.y, z: (self.z + 1) as usize }
        } else {
            BlockIter { x: 0, y: (self.y + 1) as usize, z: 0 }
        }
    }

    pub fn new() -> (r: BlockIter<CHUNK_SIZE>)
        requires
            CHUNK_SIZE >= 1,
        ensures
            r.wf(),
            r.x == 0 && r.y == 0 && r.z == 0,
    {
        BlockIter { x: 0, y: 0, z: 0 }
    }

    /// The current cell, advancing the scan position — or nothing, once
    /// every cell has been yielded.
    pub fn next(&mut self) -> (r: Option<(usize, usize, usize)>)
        requires
            old(self).wf(),
        ensures
            final(self).wf(),
            old(self).y >= CHUNK_SIZE ==> r == None::<(usize, usize, usize)> && *final(self)
                == *old(self),
            old(self).y < CHUNK_SIZE ==> r == Some(
                (old(self).x, old(self).y, old(self).z),
            ) && *final(self) == old(self).spec_step() && final(self).spec_ord() == old(
                self,
            ).spec_ord() + 1,
    {
        if self.y >= CHUNK_SIZE {
            return None;
        }
        let out = (self.x, self.y, self.z);
        self.x = self.x + 1;
        if self.x >= CHUNK_SIZE {
            self.x = self.x - CHUNK_SIZE;
            self.z = self.z + 1;
        }
        if self.z >= CHUNK_SIZE {
            self.z = self.z - CHUNK_SIZE;
            self.y = self.y + 1;
        }
        proof {
            lemma_step_ord(*old(self));
        }
        Some(out)
    }
}

/// One step of the scan raises the position's linear rank by exactly
/// one, so a full walk yields every cell exactly once, in order.
proof fn lemma_step_ord<const CHUNK_SIZE: usize>(s: BlockIter<CHUNK_SIZE>)
    requires
        s.wf(),
        s.y < CHUNK_SIZE,
    ensures
        s.spec_step().spec_ord() == s.spec_ord() + 1,
{
    let cs = CHUNK_SIZE as int;
    let t = s.spec_step();
    if s.x + 1 < CHUNK_SIZE {
        assert(t.x as int == s.x + 1 && t.y == s.y && t.z == s.z);
        assert(t.spec_ord() == s.spec_ord() + 1);
    } else if s.z + 1 < CHUNK_SIZE {
        assert(s.x as int == cs - 1);
        assert(t.x == 0 && t.y == s.y && t.z as int == s.z + 1);
        assert((t.z as int) * cs == (s.z as int) * cs + cs) by (nonlinear_arith)
            requires
                t.z as int == s.z + 1,
        ;
        assert(t.spec_ord() == s.spec_ord() + 1);
    } else {
        assert(s.x as int == cs - 1 && s.z as int == cs - 1);
        assert(t.x == 0 && t.y as int == s.y + 1 && t.z == 0);
        assert((t.y as int) * (cs * cs) == (s.y as int) * (cs * cs) + (cs * cs))
            by (nonlinear_arith)
            requires
                t.y as int == s.y + 1,
        ;
        assert(cs * cs == (s.z as int) * cs + cs) by (nonlinear_arith)
            requires
                s.z as int == cs - 1,
        ;
        assert(t.spec_ord() == s.spec_ord() + 1);
    }
}

} // verus!
