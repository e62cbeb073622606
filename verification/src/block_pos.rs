use vstd::prelude::*;

verus! {

/// The position of a block in a world.
#[derive(Debug, Clone, Copy, PartialEq, Eq, Structural)]
pub struct BlockPos {
    pub x: i32,
    pub y: i32,
    pub z: i32,
}

/// `p` moved by `(dx, dy, dz)`.
pub open spec fn moved(p: BlockPos, dx: int, dy: int, dz: int) -> BlockPos {
    BlockPos { x: (p.x + dx) as i32, y: (p.y + dy) as i32, z: (p.z + dz) as i32 }
}

/// `p` moved by `(dx, dy, dz)` stays within the `i32` coordinates.
pub open spec fn can_move(p: BlockPos, dx: int, dy: int, dz: int) -> bool {
    &&& i32::MIN <= p.x + dx <= i32::MAX
    &&& i32::MIN <= p.y + dy <= i32::MAX
    &&& i32::MIN <= p.z + dz <= i32::MAX
}

impl BlockPos {
    pub fn new(x: i32, y: i32, z: i32) -> (p: BlockPos)
        ensures
            p == (BlockPos { x, y, z }),
    {
        BlockPos { x, y, z }
    }

    /// This position moved by `(dx, dy, dz)`.
    pub fn offset(&self, dx: i32, dy: i32, dz: i32) -> (p: BlockPos)
        requires
            can_move(*self, dx as int, dy as int, dz as int),
        ensures
            p == moved(*self, dx as int, dy as int, dz as int),
    {
        BlockPos { x: self.x + dx, y: self.y + dy, z: self.z + dz }
    }

    /// The position right below.
    pub fn down(&self) -> (p: BlockPos)
        requires
            self.y > i32::MIN,
        ensures
            p == moved(*self, 0, -1, 0),
    {
        BlockPos { x: self.x, y: self.y - 1, z: self.z }
    }

    /// The position `height` blocks above.
    pub fn up_height(&self, height: i32) -> (p: BlockPos)
        requires
            i32::MIN <= self.y + height <= i32::MAX,
        ensures
            p == moved(*self, 0, height as int, 0),
    {
        BlockPos { x: self.x, y: self.y + height, z: self.z }
    }
}

} // verus!
