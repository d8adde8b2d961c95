//! Where the engine keeps its tables, how large they are, and the guard
//! values that tell a sound capture from a torn one.

use vstd::prelude::*;

verus! {

/// Offset of the object pool header in a capture of the retail Xbox build.
pub const HALO_OBJECT_POOL_HEADER_ADDR: usize = 0x000B_9370;

/// Offset of the player pool header in a capture of the retail Xbox build.
pub const HALO_PLAYER_POOL_HEADER_ADDR: usize = 0x0021_3C50;

/// Offset of the tag array header in a capture of the retail Xbox build.
pub const HALO_TAG_ARRAY_HEADER_ADDR: usize = 0x003A_6024;

/// Offset of the tag header in a capture of the retail Xbox build.
pub const HALO_TAG_HEADER_ADDR: usize = 0x003A_6000;

/// Offset of the player globals in a capture of the retail Xbox build.
pub const HALO_PLAYER_GLOBALS_ADDR: usize = 0x0021_4E00;

/// Number of local players that the player globals keep handles for.
pub const MAXIMUM_NUMBER_OF_LOCAL_PLAYERS: usize = 4;

/// Number of slots of the object table.
pub const HALO_OBJECT_MAX_POOL_ENTRIES: usize = 2048;

/// Number of slots of the player table.
pub const HALO_PLAYER_MAX_POOL_ENTRIES: usize = 16;

/// Signature carried by both pool headers; the bytes `@t@d` in memory.
pub const POOL_SIGNATURE: u32 = 0x6440_7440;

/// Guard at the start of every live object body; the bytes `daeh` in memory.
pub const OBJECT_HEAD_GUARD: u32 = 0x6865_6164;

/// Guard closing the header of every live object body; the bytes `liat` in
/// memory.
pub const OBJECT_TAIL_GUARD: u32 = 0x7461_696C;

/// Guard in the last field of the tag header; the bytes `rncs` in memory.
pub const TAG_FOOTER_GUARD: u32 = 0x7363_6E72;

/// Distance from the start of an object body to the address that the owning
/// pool entry stores for it.
pub const OBJECT_BODY_LEAD: u32 = 0x18;

/// The offsets, within a capture, of the structures a snapshot is built from.
/// Decoding is the same for every build of the engine; only these differ.
#[derive(Clone, Copy, Debug, PartialEq, Eq, Structural)]
pub struct Layout {
    pub object_pool_header: usize,
    pub player_pool_header: usize,
    pub tag_header: usize,
    pub player_globals: usize,
}

impl Layout {
    /// The layout of the retail Xbox build.
    pub open spec fn spec_xbox_retail() -> Layout {
        Layout {
            object_pool_header: HALO_OBJECT_POOL_HEADER_ADDR,
            player_pool_header: HALO_PLAYER_POOL_HEADER_ADDR,
            tag_header: HALO_TAG_HEADER_ADDR,
            player_globals: HALO_PLAYER_GLOBALS_ADDR,
        }
    }

    /// The layout of the retail Xbox build.
    pub fn xbox_retail() -> (layout: Layout)
        ensures
            layout == Layout::spec_xbox_retail(),
    {
        Layout {
            object_pool_header: HALO_OBJECT_POOL_HEADER_ADDR,
            player_pool_header: HALO_PLAYER_POOL_HEADER_ADDR,
            tag_header: HALO_TAG_HEADER_ADDR,
            player_globals: HALO_PLAYER_GLOBALS_ADDR,
        }
    }
}

} // verus!
