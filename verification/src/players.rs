//! The player pool and the player globals.

use crate::handle::DatumHandle;
use crate::layout::{HALO_PLAYER_MAX_POOL_ENTRIES, MAXIMUM_NUMBER_OF_LOCAL_PLAYERS};
use crate::objects::POOL_HEADER_SIZE;
use crate::wire::{
    fits, i32_le, i32s_at, locate, pointer_of, read_array, read_i32_array, read_i32_le,
    read_u16_array, read_u16_le, read_u32_le, read_u8, readable, resolve_pointer, u16_le,
    u16s_at, u32_le,
};
use vstd::prelude::*;

verus! {

/// Size in bytes of the player globals.
pub const PLAYERS_GLOBALS_SIZE: usize = 176;

/// Size in bytes of an entry of the player table, and so the table's stride.
pub const PLAYER_POOL_ENTRY_SIZE: usize = 212;

/// The `count` handles stored back to back from `at` on.
pub open spec fn handles_at(bytes: Seq<u8>, at: int, count: nat) -> Seq<DatumHandle> {
    Seq::new(count, |k: int| DatumHandle(u32_le(bytes, at + 4 * k)))
}

/// Reads one handle for each local player, stored back to back from `at` on.
fn read_local_handles(bytes: &[u8], at: usize) -> (out: [DatumHandle;
    MAXIMUM_NUMBER_OF_LOCAL_PLAYERS])
    requires
        readable(bytes@, at as int, 4 * MAXIMUM_NUMBER_OF_LOCAL_PLAYERS),
    ensures
        out@ == handles_at(bytes@, at as int, MAXIMUM_NUMBER_OF_LOCAL_PLAYERS as nat),
{
    let mut out: [DatumHandle; MAXIMUM_NUMBER_OF_LOCAL_PLAYERS] = [DatumHandle(0);
        MAXIMUM_NUMBER_OF_LOCAL_PLAYERS];
    let mut filled: usize = 0;
    while filled < MAXIMUM_NUMBER_OF_LOCAL_PLAYERS
        invariant
            filled <= MAXIMUM_NUMBER_OF_LOCAL_PLAYERS,
            at + 4 * MAXIMUM_NUMBER_OF_LOCAL_PLAYERS <= bytes.len(),
            forall|k: int| 0 <= k < filled ==> out@[k] == DatumHandle(u32_le(bytes@, at + 4 * k)),
        decreases MAXIMUM_NUMBER_OF_LOCAL_PLAYERS - filled,
    {
        out[filled] = DatumHandle(read_u32_le(bytes, at + 4 * filled));
        filled += 1;
    }
    assert(out@ =~= handles_at(bytes@, at as int, MAXIMUM_NUMBER_OF_LOCAL_PLAYERS as nat));
    out
}

/// The engine's record of its local players. The format gives it no guard.
#[derive(Debug)]
pub struct PlayersGlobals {
    pub unknown_1: i32,
    /// The unit that each local player controls.
    pub local_players: [DatumHandle; MAXIMUM_NUMBER_OF_LOCAL_PLAYERS],
    /// The unit that each local player takes over once it has died.
    pub local_dead_players: [DatumHandle; MAXIMUM_NUMBER_OF_LOCAL_PLAYERS],
    pub local_player_count: u16,
    pub double_speed_ticks_remaining: u16,
    pub are_all_dead: u8,
    pub input_disabled: u8,
    pub unk_tag_index: u16,
    pub respawn_failure: u16,
    pub teleported: u8,
    pub unk_flags: u8,
    pub combined_pvs: [u8; 0x40],
    pub combined_pvs_local: [u8; 0x40],
}

impl PlayersGlobals {
    /// Whether `self` holds, field by field, what `bytes` stores at `at`.
    pub open spec fn stored_at(&self, bytes: Seq<u8>, at: int) -> bool {
        &&& self.unknown_1 == i32_le(bytes, at)
        &&& self.local_players@ == handles_at(
            bytes,
            at + 4,
            MAXIMUM_NUMBER_OF_LOCAL_PLAYERS as nat,
        )
        &&& self.local_dead_players@ == handles_at(
            bytes,
            at + 20,
            MAXIMUM_NUMBER_OF_LOCAL_PLAYERS as nat,
        )
        &&& self.local_player_count == u16_le(bytes, at + 36)
        &&& self.double_speed_ticks_remaining == u16_le(bytes, at + 38)
        &&& self.are_all_dead == bytes[at + 40]
        &&& self.input_disabled == bytes[at + 41]
        &&& self.unk_tag_index == u16_le(bytes, at + 42)
        &&& self.respawn_failure == u16_le(bytes, at + 44)
        &&& self.teleported == bytes[at + 46]
        &&& self.unk_flags == bytes[at + 47]
        &&& self.combined_pvs@ == bytes.subrange(at + 48, at + 112)
        &&& self.combined_pvs_local@ == bytes.subrange(at + 112, at + 176)
    }

    /// The bytes decide the record: two records that both hold what `bytes`
    /// stores at `at` are one and the same.
    pub proof fn lemma_bytes_decide(
        first: PlayersGlobals,
        second: PlayersGlobals,
        bytes: Seq<u8>,
        at: int,
    )
        requires
            first.stored_at(bytes, at),
            second.stored_at(bytes, at),
        ensures
            first == second,
    {
        assert(first.local_players =~= second.local_players);
        assert(first.local_dead_players =~= second.local_dead_players);
        assert(first.combined_pvs =~= second.combined_pvs);
        assert(first.combined_pvs_local =~= second.combined_pvs_local);
    }

    /// Reads the globals stored at `at`, or nothing when they would reach
    /// past the end of the buffer.
    pub fn read(bytes: &[u8], at: usize) -> (globals: Option<PlayersGlobals>)
        ensures
            globals is Some <==> readable(bytes@, at as int, PLAYERS_GLOBALS_SIZE as int),
            globals matches Some(g) ==> g.stored_at(bytes@, at as int),
    {
        if !fits(bytes, at, PLAYERS_GLOBALS_SIZE) {
            return None;
        }
        Some(
            PlayersGlobals {
                unknown_1: read_i32_le(bytes, at),
                local_players: read_local_handles(bytes, at + 4),
                local_dead_players: read_local_handles(bytes, at + 20),
                local_player_count: read_u16_le(bytes, at + 36),
                double_speed_ticks_remaining: read_u16_le(bytes, at + 38),
                are_all_dead: read_u8(bytes, at + 40),
                input_disabled: read_u8(bytes, at + 41),
                unk_tag_index: read_u16_le(bytes, at + 42),
                respawn_failure: read_u16_le(bytes, at + 44),
                teleported: read_u8(bytes, at + 46),
                unk_flags: read_u8(bytes, at + 47),
                combined_pvs: read_array::<0x40>(bytes, at + 48),
                combined_pvs_local: read_array::<0x40>(bytes, at + 112),
            },
        )
    }
}

/// Bookkeeping of the player table. It has the shape of the object pool's
/// header.
#[derive(Debug)]
pub struct PlayerPoolHeader {
    pub name: [u8; 32],
    pub max_objects: u16,
    pub object_table_size: u16,
    pub unknown_1: u32,
    pub signature: u32,
    pub next_object_index: u16,
    pub max_object_count: u16,
    pub current_objects: u16,
    pub next_object_id: u16,
    /// Stored pointer to the first table entry.
    pub object_data_begin: [u8; 4],
}

impl PlayerPoolHeader {
    /// Whether `self` holds, field by field, what `bytes` stores at `at`.
    pub open spec fn stored_at(&self, bytes: Seq<u8>, at: int) -> bool {
        &&& self.name@ == bytes.subrange(at, at + 32)
        &&& self.max_objects == u16_le(bytes, at + 32)
        &&& self.object_table_size == u16_le(bytes, at + 34)
        &&& self.unknown_1 == u32_le(bytes, at + 36)
        &&& self.signature == u32_le(bytes, at + 40)
        &&& self.next_object_index == u16_le(bytes, at + 44)
        &&& self.max_object_count == u16_le(bytes, at + 46)
        &&& self.current_objects == u16_le(bytes, at + 48)
        &&& self.next_object_id == u16_le(bytes, at + 50)
        &&& self.object_data_begin@ == bytes.subrange(at + 52, at + 56)
    }

    /// The bytes decide the record: two records that both hold what `bytes`
    /// stores at `at` are one and the same.
    pub proof fn lemma_bytes_decide(
        first: PlayerPoolHeader,
        second: PlayerPoolHeader,
        bytes: Seq<u8>,
        at: int,
    )
        requires
            first.stored_at(bytes, at),
            second.stored_at(bytes, at),
        ensures
            first == second,
    {
        assert(first.name =~= second.name);
        assert(first.object_data_begin =~= second.object_data_begin);
    }

    /// Reads the header stored at `at`, or nothing when it would reach past
    /// the end of the buffer.
    pub fn read(bytes: &[u8], at: usize) -> (header: Option<PlayerPoolHeader>)
        ensures
            header is Some <==> readable(bytes@, at as int, POOL_HEADER_SIZE as int),
            header matches Some(h) ==> h.stored_at(bytes@, at as int),
    {
        if !fits(bytes, at, POOL_HEADER_SIZE) {
            return None;
        }
        Some(
            PlayerPoolHeader {
                name: read_array::<32>(bytes, at),
                max_objects: read_u16_le(bytes, at + 32),
                object_table_size: read_u16_le(bytes, at + 34),
                unknown_1: read_u32_le(bytes, at + 36),
                signature: read_u32_le(bytes, at + 40),
                next_object_index: read_u16_le(bytes, at + 44),
                max_object_count: read_u16_le(bytes, at + 46),
                current_objects: read_u16_le(bytes, at + 48),
                next_object_id: read_u16_le(bytes, at + 50),
                object_data_begin: read_array::<4>(bytes, at + 52),
            },
        )
    }

    /// The offset of the first table entry.
    pub fn table_offset(&self) -> (offset: u32)
        ensures
            offset == pointer_of(self.object_data_begin@),
    {
        resolve_pointer(&self.object_data_begin)
    }
}

/// One slot of the player table. A slot is in use exactly when its `id` is
/// not zero; the format has no further guard for it.
#[derive(Debug)]
pub struct PlayerPoolEntry {
    pub id: u16,
    pub local_player_index: u16,
    pub player_name: [u16; 12],
    pub unknown_1: [i32; 6],
    /// The unit this player controls.
    pub slave_unit_index: DatumHandle,
    /// The unit this player controlled before.
    pub last_slave_unit_index: DatumHandle,
    pub unknown_2: [u8; 150],
}

impl PlayerPoolEntry {
    /// Whether `self` holds, field by field, what `bytes` stores at `at`.
    pub open spec fn stored_at(&self, bytes: Seq<u8>, at: int) -> bool {
        &&& self.id == u16_le(bytes, at)
        &&& self.local_player_index == u16_le(bytes, at + 2)
        &&& self.player_name@ == u16s_at(bytes, at + 4, 12)
        &&& self.unknown_1@ == i32s_at(bytes, at + 28, 6)
        &&& self.slave_unit_index == DatumHandle(u32_le(bytes, at + 52))
        &&& self.last_slave_unit_index == DatumHandle(u32_le(bytes, at + 56))
        &&& self.unknown_2@ == bytes.subrange(at + 60, at + 210)
    }

    /// The bytes decide the record: two records that both hold what `bytes`
    /// stores at `at` are one and the same.
    pub proof fn lemma_bytes_decide(
        first: PlayerPoolEntry,
        second: PlayerPoolEntry,
        bytes: Seq<u8>,
        at: int,
    )
        requires
            first.stored_at(bytes, at),
            second.stored_at(bytes, at),
        ensures
            first == second,
    {
        assert(first.player_name =~= second.player_name);
        assert(first.unknown_1 =~= second.unknown_1);
        assert(first.unknown_2 =~= second.unknown_2);
    }

    /// Reads the entry stored at `at`, or nothing when it would reach past
    /// the end of the buffer. The entry is read whether or not it is in use.
    pub fn read(bytes: &[u8], at: usize) -> (entry: Option<PlayerPoolEntry>)
        ensures
            entry is Some <==> readable(bytes@, at as int, PLAYER_POOL_ENTRY_SIZE as int),
            entry matches Some(e) ==> e.stored_at(bytes@, at as int),
    {
        if !fits(bytes, at, PLAYER_POOL_ENTRY_SIZE) {
            return None;
        }
        Some(
            PlayerPoolEntry {
                id: read_u16_le(bytes, at),
                local_player_index: read_u16_le(bytes, at + 2),
                player_name: read_u16_array::<12>(bytes, at + 4),
                unknown_1: read_i32_array::<6>(bytes, at + 28),
                slave_unit_index: DatumHandle(read_u32_le(bytes, at + 52)),
                last_slave_unit_index: DatumHandle(read_u32_le(bytes, at + 56)),
                unknown_2: read_array::<150>(bytes, at + 60),
            },
        )
    }
}

/// The offset of entry `index` of a player table that starts at `base`.
pub open spec fn player_entry_at(base: int, index: int) -> int {
    base + PLAYER_POOL_ENTRY_SIZE * index
}

/// Whether slot `index` of the player table at `base` is in use: its entry
/// can be read and carries a generation other than zero.
pub open spec fn player_is_live(bytes: Seq<u8>, base: int, index: int) -> bool {
    let entry = player_entry_at(base, index);
    &&& readable(bytes, entry, PLAYER_POOL_ENTRY_SIZE as int)
    &&& u16_le(bytes, entry) != 0
}

/// What a snapshot must hold for slot `index` of the player table at `base`
/// with `count` declared slots: the entry of a slot in use, and nothing for
/// any other slot.
pub open spec fn player_slot_matches(
    entry: Option<PlayerPoolEntry>,
    bytes: Seq<u8>,
    base: int,
    count: int,
    index: int,
) -> bool {
    if index < count && player_is_live(bytes, base, index) {
        entry matches Some(e) && e.stored_at(bytes, player_entry_at(base, index))
    } else {
        entry is None
    }
}

/// What a snapshot must hold for the whole player table: one slot per slot
/// of the format's capacity, each as `player_slot_matches` says.
pub open spec fn player_table_matches(
    entries: Seq<Option<PlayerPoolEntry>>,
    bytes: Seq<u8>,
    base: int,
    count: int,
) -> bool {
    &&& entries.len() == HALO_PLAYER_MAX_POOL_ENTRIES
    &&& forall|i: int|
        0 <= i < HALO_PLAYER_MAX_POOL_ENTRIES ==> player_slot_matches(
            #[trigger] entries[i],
            bytes,
            base,
            count,
            i,
        )
}

/// Reads slot `index` of the player table at `base`: the entry when the slot
/// is in use, nothing when the entry cannot be read or its generation is
/// zero.
pub fn read_player_slot(bytes: &[u8], base: u32, index: u16) -> (slot: Option<PlayerPoolEntry>)
    ensures
        slot is Some <==> player_is_live(bytes@, base as int, index as int),
        slot matches Some(e) ==> e.stored_at(bytes@, player_entry_at(base as int, index as int)),
{
    let stride: u64 = PLAYER_POOL_ENTRY_SIZE as u64;
    let address: u64 = base as u64 + stride * (index as u64);
    let entry_at: usize = match locate(bytes, address, PLAYER_POOL_ENTRY_SIZE) {
        Some(found) => found,
        None => { return None; },
    };
    match PlayerPoolEntry::read(bytes, entry_at) {
        Some(entry) => {
            if entry.id != 0 {
                Some(entry)
            } else {
                None
            }
        },
        None => None,
    }
}

/// Walks the player table at `base` from its last declared slot down to the
/// first and collects the slots in use. Slots beyond the format's capacity
/// are not visited, however many the header declares.
pub fn scan_player_table(bytes: &[u8], base: u32, count: u16) -> (entries: Vec<
    Option<PlayerPoolEntry>,
>)
    ensures
        player_table_matches(entries@, bytes@, base as int, count as int),
{
    let mut entries: Vec<Option<PlayerPoolEntry>> = Vec::new();
    let mut made: usize = 0;
    while made < HALO_PLAYER_MAX_POOL_ENTRIES
        invariant
            made <= HALO_PLAYER_MAX_POOL_ENTRIES,
            entries.len() == made,
            forall|i: int| 0 <= i < made ==> (#[trigger] entries[i]) is None,
        decreases HALO_PLAYER_MAX_POOL_ENTRIES - made,
    {
        entries.push(None);
        made += 1;
    }
    let visited: u16 = if count as usize > HALO_PLAYER_MAX_POOL_ENTRIES {
        HALO_PLAYER_MAX_POOL_ENTRIES as u16
    } else {
        count
    };
    let mut index: u16 = visited;
    while index > 0
        invariant
            index <= visited <= HALO_PLAYER_MAX_POOL_ENTRIES,
            visited <= count,
            visited == count || visited == HALO_PLAYER_MAX_POOL_ENTRIES,
            entries.len() == HALO_PLAYER_MAX_POOL_ENTRIES,
            forall|i: int| 0 <= i < index ==> (#[trigger] entries[i]) is None,
            forall|i: int|
                index <= i < HALO_PLAYER_MAX_POOL_ENTRIES ==> player_slot_matches(
                    #[trigger] entries[i],
                    bytes@,
                    base as int,
                    count as int,
                    i,
                ),
        decreases index,
    {
        index -= 1;
        match read_player_slot(bytes, base, index) {
            Some(entry) => {
                entries.set(index as usize, Some(entry));
            },
            None => {},
        }
    }
    entries
}

} // verus!
