//! Snapshots: everything one capture tells about the running simulation.

use crate::handle::DatumHandle;
use crate::layout::{
    Layout, HALO_OBJECT_MAX_POOL_ENTRIES, HALO_OBJECT_POOL_HEADER_ADDR,
    HALO_PLAYER_MAX_POOL_ENTRIES, HALO_PLAYER_POOL_HEADER_ADDR, HALO_TAG_HEADER_ADDR,
    MAXIMUM_NUMBER_OF_LOCAL_PLAYERS, OBJECT_HEAD_GUARD, OBJECT_TAIL_GUARD, POOL_SIGNATURE,
    TAG_FOOTER_GUARD,
};
use crate::objects::{
    object_body_at, object_entry_at, object_table_matches, scan_object_table, GameObject,
    ObjectPoolEntry, ObjectPoolHeader, POOL_HEADER_SIZE,
};
use crate::players::{
    player_entry_at, player_table_matches, scan_player_table, PlayerPoolEntry, PlayerPoolHeader,
    PlayersGlobals, PLAYERS_GLOBALS_SIZE,
};
use crate::tags::{
    first_naming, lemma_bytes_decide_names, names_tag, scan_tag_names, tag_name_at,
    tag_names_match, TagHeader, TAG_HEADER_SIZE,
};
use crate::wire::{pointer_at, readable, u16_le, u32_le};
use std::collections::HashMap;
use vstd::prelude::*;

verus! {

/// Whether a pool header can be read at `at` and carries the pool signature.
pub open spec fn pool_header_is_sound(bytes: Seq<u8>, at: int) -> bool {
    readable(bytes, at, POOL_HEADER_SIZE as int) && u32_le(bytes, at + 40) == POOL_SIGNATURE
}

/// Whether the tag header can be read at `at` and is closed by its guard.
pub open spec fn tag_header_is_sound(bytes: Seq<u8>, at: int) -> bool {
    readable(bytes, at, TAG_HEADER_SIZE as int) && u32_le(bytes, at + 36) == TAG_FOOTER_GUARD
}

/// Whether a capture can be decoded at all: the three guarded headers are
/// sound and the player globals lie inside the buffer. A capture that fails
/// here is no picture of the engine, and nothing of it is used.
pub open spec fn capture_is_sound(bytes: Seq<u8>, layout: Layout) -> bool {
    &&& pool_header_is_sound(bytes, layout.object_pool_header as int)
    &&& tag_header_is_sound(bytes, layout.tag_header as int)
    &&& pool_header_is_sound(bytes, layout.player_pool_header as int)
    &&& readable(bytes, layout.player_globals as int, PLAYERS_GLOBALS_SIZE as int)
}

/// The offset of the object table that the capture's pool header points to.
pub open spec fn object_table_base(bytes: Seq<u8>, layout: Layout) -> int {
    pointer_at(bytes, layout.object_pool_header + 52) as int
}

/// The number of slots that the capture's object pool header declares.
pub open spec fn object_table_count(bytes: Seq<u8>, layout: Layout) -> int {
    u16_le(bytes, layout.object_pool_header + 32) as int
}

/// The offset of the player table that the capture's pool header points to.
pub open spec fn player_table_base(bytes: Seq<u8>, layout: Layout) -> int {
    pointer_at(bytes, layout.player_pool_header + 52) as int
}

/// The number of slots that the capture's player pool header declares.
pub open spec fn player_table_count(bytes: Seq<u8>, layout: Layout) -> int {
    u16_le(bytes, layout.player_pool_header + 32) as int
}

/// The offset of the tag table that the capture's tag header points to.
pub open spec fn tag_table_base(bytes: Seq<u8>, layout: Layout) -> int {
    pointer_at(bytes, layout.tag_header as int) as int
}

/// The number of entries that the capture's tag header declares.
pub open spec fn tag_table_count(bytes: Seq<u8>, layout: Layout) -> int {
    u32_le(bytes, layout.tag_header + 12) as int
}

/// Whether the player slot `entry` is in use by a player who controls the
/// object in slot `index` of the object table.
pub open spec fn controls(entry: Option<PlayerPoolEntry>, index: u16) -> bool {
    entry matches Some(player) && player.slave_unit_index.spec_index() == index
}

/// Whether `slot` is the first player slot whose player controls the object
/// in slot `index`.
pub open spec fn is_first_controller(
    players: Seq<Option<PlayerPoolEntry>>,
    index: u16,
    slot: int,
) -> bool {
    &&& 0 <= slot < players.len()
    &&& controls(players[slot], index)
    &&& forall|earlier: int| 0 <= earlier < slot ==> !controls(#[trigger] players[earlier], index)
}

/// The local player index of the first player who controls the object in
/// slot `index`, or nothing when no player does.
pub open spec fn owning_local_player(players: Seq<Option<PlayerPoolEntry>>, index: u16) -> Option<
    usize,
> {
    if exists|slot: int| is_first_controller(players, index, slot) {
        let slot = choose|slot: int| is_first_controller(players, index, slot);
        Some(players[slot]->0.local_player_index as usize)
    } else {
        None
    }
}

/// Whether `position` is the first among `handles` to name the slot that
/// `handle` names.
pub open spec fn is_first_match(
    handles: Seq<DatumHandle>,
    handle: DatumHandle,
    position: int,
) -> bool {
    &&& 0 <= position < handles.len()
    &&& handles[position].spec_same_slot(handle)
    &&& forall|earlier: int|
        0 <= earlier < position ==> !(#[trigger] handles[earlier]).spec_same_slot(handle)
}

/// The first position among `handles` that names the slot that `handle`
/// names, or nothing when none does.
pub open spec fn first_match(handles: Seq<DatumHandle>, handle: DatumHandle) -> Option<usize> {
    if exists|position: int| is_first_match(handles, handle, position) {
        Some((choose|position: int| is_first_match(handles, handle, position)) as usize)
    } else {
        None
    }
}

/// Everything one capture tells: both pool headers, the live objects and
/// the players in use slot by slot, the player globals, and the names of the
/// tags.
#[derive(Debug)]
pub struct EngineSnapshot {
    pub object_pool_header: ObjectPoolHeader,
    /// One slot for each slot of the object table; a slot is filled exactly
    /// when `game_object_entries` is filled at the same index.
    pub object_pool_entries: Vec<Option<ObjectPoolEntry>>,
    pub game_object_entries: Vec<Option<GameObject>>,
    pub player_pool_header: PlayerPoolHeader,
    pub player_globals: PlayersGlobals,
    /// One slot for each slot of the player table.
    pub player_pool_entries: Vec<Option<PlayerPoolEntry>>,
    /// The name of each tag index that the tag table names.
    pub tags: HashMap<u32, String>,
}

impl EngineSnapshot {
    /// The shape that every built snapshot has: its slot arrays span the
    /// format's capacities, however many slots are in use, and an object's
    /// bookkeeping and body are present together or not at all.
    pub open spec fn wf(&self) -> bool {
        &&& self.object_pool_entries@.len() == HALO_OBJECT_MAX_POOL_ENTRIES
        &&& self.game_object_entries@.len() == HALO_OBJECT_MAX_POOL_ENTRIES
        &&& self.player_pool_entries@.len() == HALO_PLAYER_MAX_POOL_ENTRIES
        &&& forall|i: int|
            0 <= i < HALO_OBJECT_MAX_POOL_ENTRIES ==> ((#[trigger] self.object_pool_entries@[i])
                is Some <==> self.game_object_entries@[i] is Some)
    }

    /// Whether `self` is the snapshot of the capture `bytes` under `layout`:
    /// every part of it holds what the capture stores for it, and no more.
    pub open spec fn describes(&self, bytes: Seq<u8>, layout: Layout) -> bool {
        &&& self.object_pool_header.stored_at(bytes, layout.object_pool_header as int)
        &&& self.player_pool_header.stored_at(bytes, layout.player_pool_header as int)
        &&& self.player_globals.stored_at(bytes, layout.player_globals as int)
        &&& object_table_matches(
            self.object_pool_entries@,
            self.game_object_entries@,
            bytes,
            object_table_base(bytes, layout),
            object_table_count(bytes, layout),
        )
        &&& player_table_matches(
            self.player_pool_entries@,
            bytes,
            player_table_base(bytes, layout),
            player_table_count(bytes, layout),
        )
        &&& tag_names_match(
            self.tags@,
            bytes,
            tag_table_base(bytes, layout),
            tag_table_count(bytes, layout),
        )
    }

    /// The number of object slots that the pool header declares, as far as
    /// the snapshot has slots for them.
    pub open spec fn spec_declared_slots(&self) -> int {
        if self.object_pool_header.max_objects <= self.object_pool_entries@.len() {
            self.object_pool_header.max_objects as int
        } else {
            self.object_pool_entries@.len() as int
        }
    }

    /// Whether `index` is the last filled slot among the declared ones.
    pub open spec fn is_top_filled(&self, index: int) -> bool {
        &&& 0 <= index < self.spec_declared_slots()
        &&& self.object_pool_entries@[index] is Some
        &&& forall|later: int|
            index < later < self.spec_declared_slots() ==> (
            #[trigger] self.object_pool_entries@[later]) is None
    }

    /// Whether `index` is the first empty slot among the declared ones.
    pub open spec fn is_first_free(&self, index: int) -> bool {
        &&& 0 <= index < self.spec_declared_slots()
        &&& self.object_pool_entries@[index] is None
        &&& forall|earlier: int|
            0 <= earlier < index ==> (#[trigger] self.object_pool_entries@[earlier]) is Some
    }

    /// The local player index of the player who controls the object in slot
    /// `index` of the object table. Player slots are asked in ascending order
    /// and the first whose unit handle names that slot answers; only the
    /// handle's index counts, not its generation.
    pub fn find_local_player_index_from_unit_index(&self, index: u16) -> (found: Option<usize>)
        ensures
            found == owning_local_player(self.player_pool_entries@, index),
    {
        let mut slot: usize = 0;
        while slot < self.player_pool_entries.len()
            invariant
                slot <= self.player_pool_entries@.len(),
                forall|earlier: int|
                    0 <= earlier < slot ==> !controls(
                        #[trigger] self.player_pool_entries@[earlier],
                        index,
                    ),
            decreases self.player_pool_entries@.len() - slot,
        {
            match &self.player_pool_entries[slot] {
                Some(player) => {
                    if player.slave_unit_index.get_index() == index {
                        proof {
                            lemma_first_controller_decides(
                                self.player_pool_entries@,
                                index,
                                slot as int,
                            );
                        }
                        return Some(player.local_player_index as usize);
                    }
                },
                None => {},
            }
            slot += 1;
        }
        assert forall|any: int| !is_first_controller(self.player_pool_entries@, index, any) by {}
        None
    }

    /// The local player who will take over the object that `object_datum`
    /// names once that player has died: the first position among the player
    /// globals' dead-unit handles that names the same slot.
    pub fn find_next_object_datum_player(&self, object_datum: DatumHandle) -> (found: Option<
        usize,
    >)
        ensures
            found == first_match(self.player_globals.local_dead_players@, object_datum),
    {
        let ghost handles = self.player_globals.local_dead_players@;
        let mut position: usize = 0;
        while position < MAXIMUM_NUMBER_OF_LOCAL_PLAYERS
            invariant
                position <= MAXIMUM_NUMBER_OF_LOCAL_PLAYERS,
                handles == self.player_globals.local_dead_players@,
                handles.len() == MAXIMUM_NUMBER_OF_LOCAL_PLAYERS,
                forall|earlier: int|
                    0 <= earlier < position ==> !(#[trigger] handles[earlier]).spec_same_slot(
                        object_datum,
                    ),
            decreases MAXIMUM_NUMBER_OF_LOCAL_PLAYERS - position,
        {
            if self.player_globals.local_dead_players[position].same_slot(&object_datum) {
                proof {
                    lemma_first_match_decides(handles, object_datum, position as int);
                }
                return Some(position);
            }
            position += 1;
        }
        assert forall|any: int| !is_first_match(handles, object_datum, any) by {}
        None
    }

    /// The object in slot `index`, when the slot holds one.
    pub fn object_at(&self, index: usize) -> (object: Option<&GameObject>)
        ensures
            object is Some <==> {
                &&& index < self.object_pool_entries@.len()
                &&& index < self.game_object_entries@.len()
                &&& self.object_pool_entries@[index as int] is Some
                &&& self.game_object_entries@[index as int] is Some
            },
            object matches Some(o) ==> self.game_object_entries@[index as int] == Some(*o),
    {
        if index < self.object_pool_entries.len() && index < self.game_object_entries.len() {
            match (&self.object_pool_entries[index], &self.game_object_entries[index]) {
                (Some(_), Some(object)) => Some(object),
                _ => None,
            }
        } else {
            None
        }
    }

    /// The greatest index of a filled slot among the slots that the pool
    /// header declares, or zero when none is filled: the top of the list of
    /// objects to show.
    pub fn top_object_index(&self) -> (top: usize)
        ensures
            self.is_top_filled(top as int) || (top == 0 && forall|any: int|
                !self.is_top_filled(any)),
    {
        let declared: usize = self.object_pool_header.max_objects as usize;
        let slots: usize = if declared <= self.object_pool_entries.len() {
            declared
        } else {
            self.object_pool_entries.len()
        };
        let mut limit: usize = slots;
        while limit > 0
            invariant
                limit <= slots,
                slots == self.spec_declared_slots(),
                slots <= self.object_pool_entries@.len(),
                forall|later: int|
                    limit <= later < slots ==> (#[trigger] self.object_pool_entries@[later])
                        is None,
            decreases limit,
        {
            if self.object_pool_entries[limit - 1].is_some() {
                return limit - 1;
            }
            limit -= 1;
        }
        0
    }

    /// The first empty slot among the slots that the pool header declares,
    /// or zero when all of them are filled: where the engine will place its
    /// next object.
    pub fn first_free_object_index(&self) -> (free: usize)
        ensures
            self.is_first_free(free as int) || (free == 0 && forall|any: int|
                !self.is_first_free(any)),
    {
        let declared: usize = self.object_pool_header.max_objects as usize;
        let limit: usize = if declared <= self.object_pool_entries.len() {
            declared
        } else {
            self.object_pool_entries.len()
        };
        let mut index: usize = 0;
        while index < limit
            invariant
                index <= limit,
                limit == self.spec_declared_slots(),
                limit <= self.object_pool_entries@.len(),
                forall|earlier: int|
                    0 <= earlier < index ==> (#[trigger] self.object_pool_entries@[earlier])
                        is Some,
            decreases limit - index,
        {
            if self.object_pool_entries[index].is_none() {
                return index;
            }
            index += 1;
        }
        0
    }
}

/// The first controlling slot decides who owns an object.
proof fn lemma_first_controller_decides(
    players: Seq<Option<PlayerPoolEntry>>,
    index: u16,
    slot: int,
)
    requires
        is_first_controller(players, index, slot),
    ensures
        owning_local_player(players, index) == Some(
            players[slot]->0.local_player_index as usize,
        ),
{
    let chosen = choose|any: int| is_first_controller(players, index, any);
    assert(is_first_controller(players, index, chosen));
    if chosen < slot {
        assert(!controls(players[chosen], index));
    }
    if slot < chosen {
        assert(!controls(players[slot], index));
    }
}

/// The first matching position decides which dead-unit handle answers.
proof fn lemma_first_match_decides(handles: Seq<DatumHandle>, handle: DatumHandle, position: int)
    requires
        is_first_match(handles, handle, position),
        handles.len() <= usize::MAX,
    ensures
        first_match(handles, handle) == Some(position as usize),
{
    let chosen = choose|any: int| is_first_match(handles, handle, any);
    assert(is_first_match(handles, handle, chosen));
    if chosen < position {
        assert(!handles[chosen].spec_same_slot(handle));
    }
    if position < chosen {
        assert(!handles[position].spec_same_slot(handle));
    }
}

/// When exactly one player slot holds a player whose unit handle names slot
/// `index`, that player's local index is the owner found.
pub proof fn lemma_sole_controller_owns(
    players: Seq<Option<PlayerPoolEntry>>,
    index: u16,
    slot: int,
)
    requires
        0 <= slot < players.len(),
        controls(players[slot], index),
        forall|other: int|
            0 <= other < players.len() && other != slot ==> !controls(
                #[trigger] players[other],
                index,
            ),
    ensures
        owning_local_player(players, index) == Some(
            players[slot]->0.local_player_index as usize,
        ),
{
    assert(is_first_controller(players, index, slot));
    lemma_first_controller_decides(players, index, slot);
}

/// When no player slot holds a player whose unit handle names slot `index`,
/// no owner is found.
pub proof fn lemma_uncontrolled_has_no_owner(players: Seq<Option<PlayerPoolEntry>>, index: u16)
    requires
        forall|slot: int| 0 <= slot < players.len() ==> !controls(#[trigger] players[slot], index),
    ensures
        owning_local_player(players, index) is None,
{
    assert forall|any: int| !is_first_controller(players, index, any) by {}
}

/// An object whose body carries only one of its two guards, or neither,
/// leaves its slot empty, whatever its table entry says.
pub proof fn lemma_torn_object_leaves_slot_empty(
    snapshot: EngineSnapshot,
    bytes: Seq<u8>,
    layout: Layout,
    index: int,
)
    requires
        snapshot.describes(bytes, layout),
        0 <= index < HALO_OBJECT_MAX_POOL_ENTRIES,
        ({
            let body = object_body_at(
                bytes,
                object_entry_at(object_table_base(bytes, layout), index),
            );
            u32_le(bytes, body) != OBJECT_HEAD_GUARD || u32_le(bytes, body + 20)
                != OBJECT_TAIL_GUARD
        }),
    ensures
        snapshot.object_pool_entries@[index] is None,
        snapshot.game_object_entries@[index] is None,
{
}

/// A player slot whose generation is zero is empty in the snapshot,
/// whatever else the slot holds.
pub proof fn lemma_unused_player_slot_is_empty(
    snapshot: EngineSnapshot,
    bytes: Seq<u8>,
    layout: Layout,
    index: int,
)
    requires
        snapshot.describes(bytes, layout),
        0 <= index < HALO_PLAYER_MAX_POOL_ENTRIES,
        u16_le(bytes, player_entry_at(player_table_base(bytes, layout), index)) == 0,
    ensures
        snapshot.player_pool_entries@[index] is None,
{
}

/// Of all table positions that name one tag index, the earliest decides:
/// the snapshot holds its name, and every other such position comes later.
pub proof fn lemma_earliest_tag_name_wins(
    snapshot: EngineSnapshot,
    bytes: Seq<u8>,
    layout: Layout,
    key: u32,
    first: int,
)
    requires
        snapshot.describes(bytes, layout),
        first_naming(
            bytes,
            tag_table_base(bytes, layout),
            tag_table_count(bytes, layout),
            key,
            first,
        ),
    ensures
        snapshot.tags@.contains_key(key),
        tag_name_at(bytes, tag_table_base(bytes, layout), first) == Some(snapshot.tags@[key]@),
        forall|later: int|
            0 <= later < tag_table_count(bytes, layout) && #[trigger] names_tag(
                bytes,
                tag_table_base(bytes, layout),
                later,
                key,
            ) ==> first <= later,
{
}

/// The capture decides the snapshot: two snapshots that both describe one
/// capture agree in their headers, in every slot and in every name, so that
/// decoding a capture again can only give the same picture.
pub proof fn lemma_capture_decides_snapshot(
    first: EngineSnapshot,
    second: EngineSnapshot,
    bytes: Seq<u8>,
    layout: Layout,
)
    requires
        first.describes(bytes, layout),
        second.describes(bytes, layout),
    ensures
        first.object_pool_header == second.object_pool_header,
        first.player_pool_header == second.player_pool_header,
        first.player_globals == second.player_globals,
        first.object_pool_entries@ =~= second.object_pool_entries@,
        first.game_object_entries@ =~= second.game_object_entries@,
        first.player_pool_entries@ =~= second.player_pool_entries@,
        first.tags@.dom() =~= second.tags@.dom(),
        forall|key: u32| #[trigger]
            first.tags@.contains_key(key) ==> first.tags@[key]@ == second.tags@[key]@,
{
    ObjectPoolHeader::lemma_bytes_decide(
        first.object_pool_header,
        second.object_pool_header,
        bytes,
        layout.object_pool_header as int,
    );
    PlayerPoolHeader::lemma_bytes_decide(
        first.player_pool_header,
        second.player_pool_header,
        bytes,
        layout.player_pool_header as int,
    );
    PlayersGlobals::lemma_bytes_decide(
        first.player_globals,
        second.player_globals,
        bytes,
        layout.player_globals as int,
    );
    let objects = object_table_base(bytes, layout);
    assert forall|i: int|
        0 <= i < HALO_OBJECT_MAX_POOL_ENTRIES implies first.object_pool_entries@[i]
        == second.object_pool_entries@[i] && first.game_object_entries@[i]
        == second.game_object_entries@[i] by {
        if first.object_pool_entries@[i] is Some {
            ObjectPoolEntry::lemma_bytes_decide(
                first.object_pool_entries@[i]->0,
                second.object_pool_entries@[i]->0,
                bytes,
                object_entry_at(objects, i),
            );
            GameObject::lemma_bytes_decide(
                first.game_object_entries@[i]->0,
                second.game_object_entries@[i]->0,
                bytes,
                object_body_at(bytes, object_entry_at(objects, i)),
            );
        }
    }
    let players = player_table_base(bytes, layout);
    assert forall|i: int|
        0 <= i < HALO_PLAYER_MAX_POOL_ENTRIES implies first.player_pool_entries@[i]
        == second.player_pool_entries@[i] by {
        if first.player_pool_entries@[i] is Some {
            PlayerPoolEntry::lemma_bytes_decide(
                first.player_pool_entries@[i]->0,
                second.player_pool_entries@[i]->0,
                bytes,
                player_entry_at(players, i),
            );
        }
    }
    lemma_bytes_decide_names(
        first.tags@,
        second.tags@,
        bytes,
        tag_table_base(bytes, layout),
        tag_table_count(bytes, layout),
    );
}

/// Builds the snapshot of a capture whose structures lie at the offsets that
/// `layout` gives.
///
/// A capture whose object pool header, tag header or player pool header
/// cannot be read or lacks its guard yields nothing, and so does one too
/// short to hold the player globals. In every other capture each table is
/// walked in full; a slot that cannot be read or fails its own check is left
/// empty and the walk goes on.
pub fn build_snapshot_with_layout(bytes: &[u8], layout: &Layout) -> (snapshot: Option<
    EngineSnapshot,
>)
    ensures
        snapshot is Some <==> capture_is_sound(bytes@, *layout),
        snapshot matches Some(s) ==> s.wf() && s.describes(bytes@, *layout),
        !pool_header_is_sound(bytes@, layout.object_pool_header as int) ==> snapshot is None,
        !tag_header_is_sound(bytes@, layout.tag_header as int) ==> snapshot is None,
        !pool_header_is_sound(bytes@, layout.player_pool_header as int) ==> snapshot is None,
{
    let object_pool_header: ObjectPoolHeader = match ObjectPoolHeader::read(
        bytes,
        layout.object_pool_header,
    ) {
        Some(header) => header,
        None => { return None; },
    };
    if object_pool_header.signature != POOL_SIGNATURE {
        return None;
    }
    let tag_header: TagHeader = match TagHeader::read(bytes, layout.tag_header) {
        Some(header) => header,
        None => { return None; },
    };
    if tag_header.footer != TAG_FOOTER_GUARD {
        return None;
    }
    let player_pool_header: PlayerPoolHeader = match PlayerPoolHeader::read(
        bytes,
        layout.player_pool_header,
    ) {
        Some(header) => header,
        None => { return None; },
    };
    if player_pool_header.signature != POOL_SIGNATURE {
        return None;
    }
    let player_globals: PlayersGlobals = match PlayersGlobals::read(bytes, layout.player_globals) {
        Some(globals) => globals,
        None => { return None; },
    };
    let (object_pool_entries, game_object_entries) = scan_object_table(
        bytes,
        object_pool_header.table_offset(),
        object_pool_header.max_objects,
    );
    let tags: HashMap<u32, String> = scan_tag_names(
        bytes,
        tag_header.table_offset(),
        tag_header.tag_count,
    );
    let player_pool_entries: Vec<Option<PlayerPoolEntry>> = scan_player_table(
        bytes,
        player_pool_header.table_offset(),
        player_pool_header.max_objects,
    );
    Some(
        EngineSnapshot {
            object_pool_header,
            object_pool_entries,
            game_object_entries,
            player_pool_header,
            player_globals,
            player_pool_entries,
            tags,
        },
    )
}

/// Builds the snapshot of a capture of the retail Xbox build.
pub fn build_snapshot(bytes: &[u8]) -> (snapshot: Option<EngineSnapshot>)
    ensures
        snapshot is Some <==> capture_is_sound(bytes@, Layout::spec_xbox_retail()),
        snapshot matches Some(s) ==> s.wf() && s.describes(bytes@, Layout::spec_xbox_retail()),
        !pool_header_is_sound(bytes@, HALO_OBJECT_POOL_HEADER_ADDR as int) ==> snapshot is None,
        !tag_header_is_sound(bytes@, HALO_TAG_HEADER_ADDR as int) ==> snapshot is None,
        !pool_header_is_sound(bytes@, HALO_PLAYER_POOL_HEADER_ADDR as int) ==> snapshot is None,
{
    let layout: Layout = Layout::xbox_retail();
    build_snapshot_with_layout(bytes, &layout)
}

} // verus!
