//! Start-up state of the system: a formatted medium and the root inode,
//! handed to whatever runs next instead of living in globals.
use vstd::prelude::*;
use crate::device::{BlockDevice, PPDev};
use crate::fs::{formatted, mkfs};
use crate::layout::Inode;

verus! {

/// Mode of the root directory's inode (`0o755`).
pub const ROOT_MODE: u16 = 0o755;

/// Builds a zero-filled in-memory medium, formats it, and builds the root
/// inode: mode `0o755`, size 0, no blocks, in use.
pub fn pomain() -> (r: (PPDev, Inode))
    ensures
        r.0.blocks() == formatted(Seq::new(8, |i: int| Seq::new(512, |j: int| 0u8))),
        r.1.mode == ROOT_MODE,
        r.1.size == 0,
        r.1.direct_ptrs@ == Seq::new(12, |k: int| 0u32),
        r.1.indirect_ptr == 0,
        r.1.is_used == 1,
{
    let mut device = PPDev::new();
    mkfs(&mut device);
    let root_inode = Inode {
        mode: ROOT_MODE,
        size: 0,
        direct_ptrs: [0; 12],
        indirect_ptr: 0,
        is_used: 1,
    };
    assert(root_inode.direct_ptrs@ =~= Seq::new(12, |k: int| 0u32));
    (device, root_inode)
}

} // verus!
