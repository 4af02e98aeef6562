use vstd::prelude::*;

use crate::chunk::CHUNK_SIZE;

verus! {

/// Walks every cell of a box with compile-time edge lengths in the fixed
/// scan order: x fastest, then z, then y.
pub struct BlockIter<const X: u32, const Y: u32, const Z: u32> {
    pub x: u32,
    pub y: u32,
    pub z: u32,
}

impl<const X: u32, const Y: u32, const Z: u32> BlockIter<X, Y, Z> {
    /// The x and z coordinates stay inside the box; y passes its edge by
    /// one step exactly when the walk is exhausted.
    pub open spec fn wf(self) -> bool {
        self.x < X && self.z < Z && self.y <= Y
    }

    /// The number of cells yielded so far: the linear rank of the scan
    /// position in the fixed order, x fastest, then z, then y.
    pub open spec fn spec_ord(self) -> int {
        (self.y as int) * ((X as int) * (Z as int)) + (self.z as int) * (X as int) + (self.x as int)
    }

    /// The scan position after one step.
    pub open spec fn spec_step(self) -> BlockIter<X, Y, Z> {
        if self.x + 1 < X {
            BlockIter { x: (self.x + 1) as u32, y: self.y, z: self.z }
        } else if self.z + 1 < Z {
            BlockIter { x: 0, y: self.y, z: (self.z + 1) as u32 }
        } else {
            BlockIter { x: 0, y: (self.y + 1) as u32, z: 0 }
        }
    }

    pub fn new() -> (r: BlockIter<X, Y, Z>)
        requires
            X >= 1,
            Z >= 1,
        ensures
            r.wf(),
            r.x == 0 && r.y == 0 && r.z == 0,
    {
        BlockIter { x: 0, y: 0, z: 0 }
    }

    /// The current cell, advancing the scan position — or nothing, once
    /// every cell has been yielded.
    pub fn next(&mut self) -> (r: Option<(u32, u32, u32)>)
        requires
            old(self).wf(),
        ensures
            final(self).wf(),
            old(self).y >= Y ==> r == None::<(u32, u32, u32)> && *final(self) == *old(self),
            old(self).y < Y ==> r == Some((old(self).x, old(self).y, old(self).z)) && *final(self)
                == old(self).spec_step() && final(self).spec_ord() == old(self).spec_ord() + 1,
    {
        if self.y >= Y {
            return None;
        }
        let out = (self.x, self.y, self.z);
        self.x = self.x + 1;
        if self.x >= X {
            self.x = self.x - X;
            self.z = self.z + 1;
        }
        if self.z >= Z {
            self.z = self.z - Z;
            self.y = self.y + 1;
        }
        proof {
            lemma_boxed_step_ord(*old(self));
        }
        Some(out)
    }
}

/// One step of the scan raises the position's linear rank by exactly
/// one, so a full walk yields every cell exactly once, in order.
proof fn lemma_boxed_step_ord<const X: u32, const Y: u32, const Z: u32>(s: BlockIter<X, Y, Z>)
    requires
        s.wf(),
        s.y < Y,
    ensures
        s.spec_step().spec_ord() == s.spec_ord() + 1,
{
    let sx = X as int;
    let sz = Z as int;
    let t = s.spec_step();
    if s.x + 1 < X {
        assert(t.x as int == s.x + 1 && t.y == s.y && t.z == s.z);
        assert(t.spec_ord() == s.spec_ord() + 1);
    } else if s.z + 1 < Z {
        assert(s.x as int == sx - 1);
        assert(t.x == 0 && t.y == s.y && t.z as int == s.z + 1);
        assert((t.z as int) * sx == (s.z as int) * sx + sx) by (nonlinear_arith)
            requires
                t.z as int == s.z + 1,
        ;
        assert(t.spec_ord() == s.spec_ord() + 1);
    } else {
        assert(s.x as int == sx - 1 && s.z as int == sz - 1);
        assert(t.x == 0 && t.y as int == s.y + 1 && t.z == 0);
        assert((t.y as int) * (sx * sz) == (s.y as int) * (sx * sz) + (sx * sz))
            by (nonlinear_arith)
            requires
                t.y as int == s.y + 1,
        ;
        assert(sx * sz == (s.z as int) * sx + sx) by (nonlinear_arith)
            requires
                s.z as int == sz - 1,
        ;
        assert(t.spec_ord() == s.spec_ord() + 1);
    }
}

/// Walks every cell of a box whose shape is chosen at run time, in the
/// same fixed scan order.
pub struct DynBlockIter {
    pub size_x: u32,
    pub size_y: u32,
    pub size_z: u32,
    pub x: u32,
    pub y: u32,
    pub z: u32,
}

impl DynBlockIter {
    pub open spec fn wf(self) -> bool {
        self.x < self.size_x && self.z < self.size_z && self.y <= self.size_y
    }

    /// The number of cells yielded so far: the linear rank of the scan
    /// position in the fixed order, x fastest, then z, then y.
    pub open spec fn spec_ord(self) -> int {
        (self.y as int) * ((self.size_x as int) * (self.size_z as int)) + (self.z as int) * (
        self.size_x as int) + (self.x as int)
    }

    /// The scan position after one step.
    pub open spec fn spec_step(self) -> DynBlockIter {
        if self.x + 1 < self.size_x {
            DynBlockIter { x: (self.x + 1) as u32, ..self }
        } else if self.z + 1 < self.size_z {
            DynBlockIter { x: 0, z: (self.z + 1) as u32, ..self }
        } else {
            DynBlockIter { x: 0, y: (self.y + 1) as u32, z: 0, ..self }
        }
    }

    pub fn new(size_x: u32, size_y: u32, size_z: u32) -> (r: DynBlockIter)
        requires
            size_x >= 1,
            size_z >= 1,
        ensures
            r.wf(),
            r.size_x == size_x && r.size_y == size_y && r.size_z == size_z,
            r.x == 0 && r.y == 0 && r.z == 0,
    {
        DynBlockIter { size_x, size_y, size_z, x: 0, y: 0, z: 0 }
    }

    /// The current cell, advancing the scan position — or nothing, once
    /// every cell has been yielded.
    pub fn next(&mut self) -> (r: Option<(u32, u32, u32)>)
        requires
            old(self).wf(),
        ensures
            final(self).wf(),
            old(self).y >= old(self).size_y ==> r == None::<(u32, u32, u32)> && *final(self)
                == *old(self),
            old(self).y < old(self).size_y ==> r == Some(
                (old(self).x, old(self).y, old(self).z),
            ) && *final(self) == old(self).spec_step() && final(self).spec_ord() == old(
                self,
            ).spec_ord() + 1,
    {
        if self.y >= self.size_y {
            return None;
        }
        let out = (self.x, self.y, self.z);
        self.x = self.x + 1;
        if self.x >= self.size_x {
            self.x = self.x - self.size_x;
            self.z = self.z + 1;
        }
        if self.z >= self.size_z {
            self.z = self.z - self.size_z;
            self.y = self.y + 1;
        }
        proof {
            lemma_dyn_step_ord(*old(self));
        }
        Some(out)
    }
}

/// One step of the scan raises the position's linear rank by exactly
/// one, so a full walk yields every cell exactly once, in order.
proof fn lemma_dyn_step_ord(s: DynBlockIter)
    requires
        s.wf(),
        s.y < s.size_y,
    ensures
        s.spec_step().spec_ord() == s.spec_ord() + 1,
{
    let sx = s.size_x as int;
    let sz = s.size_z as int;
    let t = s.spec_step();
    if s.x + 1 < s.size_x {
        assert(t.x as int == s.x + 1 && t.y == s.y && t.z == s.z);
        assert(t.spec_ord() == s.spec_ord() + 1);
    } else if s.z + 1 < s.size_z {
        assert(s.x as int == sx - 1);
        assert(t.x == 0 && t.y == s.y && t.z as int == s.z + 1);
        assert((t.z as int) * sx == (s.z as int) * sx + sx) by (nonlinear_arith)
            requires
                t.z as int == s.z + 1,
        ;
        assert(t.spec_ord() == s.spec_ord() + 1);
    } else {
        assert(s.x as int == sx - 1 && s.z as int == sz - 1);
        assert(t.x == 0 && t.y as int == s.y + 1 && t.z == 0);
        assert((t.y as int) * (sx * sz) == (s.y as int) * (sx * sz) + (sx * sz))
            by (nonlinear_arith)
            requires
                t.y as int == s.y + 1,
        ;
        assert(sx * sz == (s.z as int) * sx + sx) by (nonlinear_arith)
            requires
                s.z as int == sz - 1,
        ;
        assert(t.spec_ord() == s.spec_ord() + 1);
    }
}

impl Default for DynBlockIter {
    /// A walk over one chunk of the deployment's fixed shape.
    fn default() -> (r: Self)
        ensures
            r.wf(),
            r.size_x == CHUNK_SIZE.spec_size() && r.size_y == CHUNK_SIZE.spec_size() && r.size_z
                == CHUNK_SIZE.spec_size(),
            r.x == 0 && r.y == 0 && r.z == 0,
    {
        DynBlockIter::new(CHUNK_SIZE.size(), CHUNK_SIZE.size(), CHUNK_SIZE.size())
    }
}

} // verus!
