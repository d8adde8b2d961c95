//! The object pool: its header, its per-slot entries and the object bodies
//! that the entries point to.

use crate::layout::{
    HALO_OBJECT_MAX_POOL_ENTRIES, OBJECT_BODY_LEAD, OBJECT_HEAD_GUARD, OBJECT_TAIL_GUARD,
};
use crate::wire::{
    fits, locate, pointer_at, pointer_of, read_array, read_u16_le, read_u32_array, read_u32_le,
    readable, resolve_pointer, u16_le, u32_le, u32s_at,
};
use vstd::prelude::*;

verus! {

/// Size in bytes of a pool header.
pub const POOL_HEADER_SIZE: usize = 56;

/// Size in bytes of an entry of the object table, and so the table's stride.
pub const OBJECT_POOL_ENTRY_SIZE: usize = 12;

/// Size in bytes of the part of an object body that a snapshot keeps.
pub const GAME_OBJECT_SIZE: usize = 48;

/// Offset of the position vector inside an object body.
pub const GAME_OBJECT_POSITION_OFFSET: usize = 0x24;

/// Bookkeeping of the object table.
#[derive(Debug)]
pub struct ObjectPoolHeader {
    pub name: [u8; 32],
    pub max_objects: u16,
    pub object_table_size: u16,
    pub unknown_1: u32,
    pub signature: u32,
    pub next_object_index: u16,
    pub max_object_count: u16,
    pub current_objects: u16,
    pub next_object_id: u16,
    /// Stored pointer to the first table entry.
    pub object_data_begin: [u8; 4],
}

impl ObjectPoolHeader {
    /// Whether `self` holds, field by field, what `bytes` stores at `at`.
    pub open spec fn stored_at(&self, bytes: Seq<u8>, at: int) -> bool {
        &&& self.name@ == bytes.subrange(at, at + 32)
        &&& self.max_objects == u16_le(bytes, at + 32)
        &&& self.object_table_size == u16_le(bytes, at + 34)
        &&& self.unknown_1 == u32_le(bytes, at + 36)
        &&& self.signature == u32_le(bytes, at + 40)
        &&& self.next_object_index == u16_le(bytes, at + 44)
        &&& self.max_object_count == u16_le(bytes, at + 46)
        &&& self.current_objects == u16_le(bytes, at + 48)
        &&& self.next_object_id == u16_le(bytes, at + 50)
        &&& self.object_data_begin@ == bytes.subrange(at + 52, at + 56)
    }

    /// The bytes decide the record: two records that both hold what `bytes`
    /// stores at `at` are one and the same.
    pub proof fn lemma_bytes_decide(
        first: ObjectPoolHeader,
        second: ObjectPoolHeader,
        bytes: Seq<u8>,
        at: int,
    )
        requires
            first.stored_at(bytes, at),
            second.stored_at(bytes, at),
        ensures
            first == second,
    {
        assert(first.name =~= second.name);
        assert(first.object_data_begin =~= second.object_data_begin);
    }

    /// Reads the header stored at `at`, or nothing when it would reach past
    /// the end of the buffer.
    pub fn read(bytes: &[u8], at: usize) -> (header: Option<ObjectPoolHeader>)
        ensures
            header is Some <==> readable(bytes@, at as int, POOL_HEADER_SIZE as int),
            header matches Some(h) ==> h.stored_at(bytes@, at as int),
    {
        if !fits(bytes, at, POOL_HEADER_SIZE) {
            return None;
        }
        Some(
            ObjectPoolHeader {
                name: read_array::<32>(bytes, at),
                max_objects: read_u16_le(bytes, at + 32),
                object_table_size: read_u16_le(bytes, at + 34),
                unknown_1: read_u32_le(bytes, at + 36),
                signature: read_u32_le(bytes, at + 40),
                next_object_index: read_u16_le(bytes, at + 44),
                max_object_count: read_u16_le(bytes, at + 46),
                current_objects: read_u16_le(bytes, at + 48),
                next_object_id: read_u16_le(bytes, at + 50),
                object_data_begin: read_array::<4>(bytes, at + 52),
            },
        )
    }

    /// The offset of the first table entry.
    pub fn table_offset(&self) -> (offset: u32)
        ensures
            offset == pointer_of(self.object_data_begin@),
    {
        resolve_pointer(&self.object_data_begin)
    }
}

/// Bookkeeping of one slot of the object table.
#[derive(Debug)]
pub struct ObjectPoolEntry {
    pub id: u16,
    pub unknown_1: u16,
    pub unknown_2: u16,
    pub size: u16,
    /// Stored pointer into the slot's object body.
    pub object_address: [u8; 4],
}

impl ObjectPoolEntry {
    /// Whether `self` holds, field by field, what `bytes` stores at `at`.
    pub open spec fn stored_at(&self, bytes: Seq<u8>, at: int) -> bool {
        &&& self.id == u16_le(bytes, at)
        &&& self.unknown_1 == u16_le(bytes, at + 2)
        &&& self.unknown_2 == u16_le(bytes, at + 4)
        &&& self.size == u16_le(bytes, at + 6)
        &&& self.object_address@ == bytes.subrange(at + 8, at + 12)
    }

    /// The offset at which the body of this entry's object starts, or nothing
    /// when the stored pointer lies too low to have a body in front of it.
    pub open spec fn spec_body_offset(&self) -> Option<int> {
        let target = pointer_of(self.object_address@);
        if target >= OBJECT_BODY_LEAD {
            Some(target - OBJECT_BODY_LEAD)
        } else {
            None
        }
    }

    /// The offset at which component `axis` of the object's position is
    /// stored: `0`, `1` and `2` for x, y and z.
    pub open spec fn spec_position_offset(&self, axis: int) -> Option<int> {
        match self.spec_body_offset() {
            Some(body) if 0 <= axis < 3 => Some(body + GAME_OBJECT_POSITION_OFFSET + 4 * axis),
            _ => None,
        }
    }

    /// The bytes decide the record: two records that both hold what `bytes`
    /// stores at `at` are one and the same.
    pub proof fn lemma_bytes_decide(
        first: ObjectPoolEntry,
        second: ObjectPoolEntry,
        bytes: Seq<u8>,
        at: int,
    )
        requires
            first.stored_at(bytes, at),
            second.stored_at(bytes, at),
        ensures
            first == second,
    {
        assert(first.object_address =~= second.object_address);
    }

    /// Reads the entry stored at `at`, or nothing when it would reach past
    /// the end of the buffer.
    pub fn read(bytes: &[u8], at: usize) -> (entry: Option<ObjectPoolEntry>)
        ensures
            entry is Some <==> readable(bytes@, at as int, OBJECT_POOL_ENTRY_SIZE as int),
            entry matches Some(e) ==> e.stored_at(bytes@, at as int),
    {
        if !fits(bytes, at, OBJECT_POOL_ENTRY_SIZE) {
            return None;
        }
        Some(
            ObjectPoolEntry {
                id: read_u16_le(bytes, at),
                unknown_1: read_u16_le(bytes, at + 2),
                unknown_2: read_u16_le(bytes, at + 4),
                size: read_u16_le(bytes, at + 6),
                object_address: read_array::<4>(bytes, at + 8),
            },
        )
    }

    /// The offset at which the body of this entry's object starts.
    pub fn body_offset(&self) -> (offset: Option<u32>)
        ensures
            offset is Some <==> self.spec_body_offset() is Some,
            offset matches Some(body) ==> self.spec_body_offset() == Some(body as int),
    {
        let target: u32 = resolve_pointer(&self.object_address);
        if target >= OBJECT_BODY_LEAD {
            Some(target - OBJECT_BODY_LEAD)
        } else {
            None
        }
    }

    /// The offset to write to when component `axis` of the object's position
    /// is edited.
    pub fn position_offset(&self, axis: usize) -> (offset: Option<usize>)
        ensures
            offset is Some <==> self.spec_position_offset(axis as int) is Some,
            offset matches Some(found) ==> self.spec_position_offset(axis as int) == Some(
                found as int,
            ),
    {
        match self.body_offset() {
            Some(body) => {
                if axis < 3 {
                    Some(body as usize + GAME_OBJECT_POSITION_OFFSET + 4 * axis)
                } else {
                    None
                }
            },
            None => None,
        }
    }
}

/// The head of a live object's body. The position is kept as the bit
/// patterns of its three IEEE 754 single-precision components, x first.
#[derive(Debug)]
pub struct GameObject {
    pub header_head: u32,
    pub tag_id: u32,
    pub ptr_a: u32,
    pub ptr_next_object: u32,
    pub ptr_previous_object: u32,
    pub header_tail: u32,
    pub tag_index: u32,
    pub flags: u32,
    pub padding_1: u32,
    pub position_bits: [u32; 3],
}

impl GameObject {
    /// Whether `self` holds, field by field, what `bytes` stores at `at`.
    pub open spec fn stored_at(&self, bytes: Seq<u8>, at: int) -> bool {
        &&& self.header_head == u32_le(bytes, at)
        &&& self.tag_id == u32_le(bytes, at + 4)
        &&& self.ptr_a == u32_le(bytes, at + 8)
        &&& self.ptr_next_object == u32_le(bytes, at + 12)
        &&& self.ptr_previous_object == u32_le(bytes, at + 16)
        &&& self.header_tail == u32_le(bytes, at + 20)
        &&& self.tag_index == u32_le(bytes, at + 24)
        &&& self.flags == u32_le(bytes, at + 28)
        &&& self.padding_1 == u32_le(bytes, at + 32)
        &&& self.position_bits@ == u32s_at(bytes, at + 36, 3)
    }

    /// Whether both guards of the body carry their expected values.
    pub open spec fn spec_is_intact(&self) -> bool {
        self.header_head == OBJECT_HEAD_GUARD && self.header_tail == OBJECT_TAIL_GUARD
    }

    /// The bytes decide the record: two records that both hold what `bytes`
    /// stores at `at` are one and the same.
    pub proof fn lemma_bytes_decide(first: GameObject, second: GameObject, bytes: Seq<u8>, at: int)
        requires
            first.stored_at(bytes, at),
            second.stored_at(bytes, at),
        ensures
            first == second,
    {
        assert(first.position_bits =~= second.position_bits);
    }

    /// Reads the body stored at `at`, or nothing when it would reach past the
    /// end of the buffer. The guards are read like any other field.
    pub fn read(bytes: &[u8], at: usize) -> (object: Option<GameObject>)
        ensures
            object is Some <==> readable(bytes@, at as int, GAME_OBJECT_SIZE as int),
            object matches Some(o) ==> o.stored_at(bytes@, at as int),
    {
        if !fits(bytes, at, GAME_OBJECT_SIZE) {
            return None;
        }
        Some(
            GameObject {
                header_head: read_u32_le(bytes, at),
                tag_id: read_u32_le(bytes, at + 4),
                ptr_a: read_u32_le(bytes, at + 8),
                ptr_next_object: read_u32_le(bytes, at + 12),
                ptr_previous_object: read_u32_le(bytes, at + 16),
                header_tail: read_u32_le(bytes, at + 20),
                tag_index: read_u32_le(bytes, at + 24),
                flags: read_u32_le(bytes, at + 28),
                padding_1: read_u32_le(bytes, at + 32),
                position_bits: read_u32_array::<3>(bytes, at + 36),
            },
        )
    }

    /// Tells whether both guards of the body carry their expected values.
    pub fn is_intact(&self) -> (intact: bool)
        ensures
            intact == self.spec_is_intact(),
    {
        self.header_head == OBJECT_HEAD_GUARD && self.header_tail == OBJECT_TAIL_GUARD
    }
}

/// The offset of entry `index` of an object table that starts at `base`.
pub open spec fn object_entry_at(base: int, index: int) -> int {
    base + OBJECT_POOL_ENTRY_SIZE * index
}

/// The offset of the body that the table entry stored at `entry` points to.
/// It is negative when the stored pointer lies too low.
pub open spec fn object_body_at(bytes: Seq<u8>, entry: int) -> int {
    pointer_at(bytes, entry + 8) - OBJECT_BODY_LEAD
}

/// Whether slot `index` of the object table at `base` holds a live object:
/// its entry and the body that the entry points to can both be read, and
/// the body carries both guards.
pub open spec fn object_is_live(bytes: Seq<u8>, base: int, index: int) -> bool {
    let entry = object_entry_at(base, index);
    let body = object_body_at(bytes, entry);
    &&& readable(bytes, entry, OBJECT_POOL_ENTRY_SIZE as int)
    &&& readable(bytes, body, GAME_OBJECT_SIZE as int)
    &&& u32_le(bytes, body) == OBJECT_HEAD_GUARD
    &&& u32_le(bytes, body + 20) == OBJECT_TAIL_GUARD
}

/// What a snapshot must hold for slot `index` of the object table at `base`
/// with `count` declared slots: the entry and the body of a live object,
/// and nothing for any other slot.
pub open spec fn object_slot_matches(
    entry: Option<ObjectPoolEntry>,
    object: Option<GameObject>,
    bytes: Seq<u8>,
    base: int,
    count: int,
    index: int,
) -> bool {
    if index < count && object_is_live(bytes, base, index) {
        &&& entry matches Some(e) && e.stored_at(bytes, object_entry_at(base, index))
        &&& object matches Some(o) && o.stored_at(
            bytes,
            object_body_at(bytes, object_entry_at(base, index)),
        )
    } else {
        entry is None && object is None
    }
}

/// What a snapshot must hold for the whole object table: one pair per slot
/// of the format's capacity, each as `object_slot_matches` says.
pub open spec fn object_table_matches(
    entries: Seq<Option<ObjectPoolEntry>>,
    objects: Seq<Option<GameObject>>,
    bytes: Seq<u8>,
    base: int,
    count: int,
) -> bool {
    &&& entries.len() == HALO_OBJECT_MAX_POOL_ENTRIES
    &&& objects.len() == HALO_OBJECT_MAX_POOL_ENTRIES
    &&& forall|i: int|
        #![trigger entries[i]]
        #![trigger objects[i]]
        0 <= i < HALO_OBJECT_MAX_POOL_ENTRIES ==> object_slot_matches(
            entries[i],
            objects[i],
            bytes,
            base,
            count,
            i,
        )
}

/// Reads slot `index` of the object table at `base`: the entry together with
/// the body it points to when the slot holds a live object, nothing when the
/// entry or the body cannot be read or a guard is off.
pub fn read_object_slot(bytes: &[u8], base: u32, index: u16) -> (slot: Option<
    (ObjectPoolEntry, GameObject),
>)
    ensures
        slot is Some <==> object_is_live(bytes@, base as int, index as int),
        slot matches Some(pair) ==> {
            &&& pair.0.stored_at(bytes@, object_entry_at(base as int, index as int))
            &&& pair.1.stored_at(
                bytes@,
                object_body_at(bytes@, object_entry_at(base as int, index as int)),
            )
        },
{
    let stride: u64 = OBJECT_POOL_ENTRY_SIZE as u64;
    let address: u64 = base as u64 + stride * (index as u64);
    let entry_at: usize = match locate(bytes, address, OBJECT_POOL_ENTRY_SIZE) {
        Some(found) => found,
        None => { return None; },
    };
    let entry: ObjectPoolEntry = match ObjectPoolEntry::read(bytes, entry_at) {
        Some(entry) => entry,
        None => { return None; },
    };
    let body_at: u32 = match entry.body_offset() {
        Some(body) => body,
        None => { return None; },
    };
    let object: GameObject = match GameObject::read(bytes, body_at as usize) {
        Some(object) => object,
        None => { return None; },
    };
    if object.is_intact() {
        Some((entry, object))
    } else {
        None
    }
}

/// Walks the object table at `base` from its last declared slot down to the
/// first and collects the live objects. Slots beyond the format's capacity
/// are not visited, however many the header declares.
pub fn scan_object_table(bytes: &[u8], base: u32, count: u16) -> (tables: (
    Vec<Option<ObjectPoolEntry>>,
    Vec<Option<GameObject>>,
))
    ensures
        object_table_matches(tables.0@, tables.1@, bytes@, base as int, count as int),
{
    let mut entries: Vec<Option<ObjectPoolEntry>> = Vec::new();
    let mut objects: Vec<Option<GameObject>> = Vec::new();
    let mut made: usize = 0;
    while made < HALO_OBJECT_MAX_POOL_ENTRIES
        invariant
            made <= HALO_OBJECT_MAX_POOL_ENTRIES,
            entries.len() == made,
            objects.len() == made,
            forall|i: int| 0 <= i < made ==> (#[trigger] entries[i]) is None,
            forall|i: int| 0 <= i < made ==> (#[trigger] objects[i]) is None,
        decreases HALO_OBJECT_MAX_POOL_ENTRIES - made,
    {
        entries.push(None);
        objects.push(None);
        made += 1;
    }
    let visited: u16 = if count as usize > HALO_OBJECT_MAX_POOL_ENTRIES {
        HALO_OBJECT_MAX_POOL_ENTRIES as u16
    } else {
        count
    };
    let mut index: u16 = visited;
    while index > 0
        invariant
            index <= visited <= HALO_OBJECT_MAX_POOL_ENTRIES,
            visited <= count,
            visited == count || visited == HALO_OBJECT_MAX_POOL_ENTRIES,
            entries.len() == HALO_OBJECT_MAX_POOL_ENTRIES,
            objects.len() == HALO_OBJECT_MAX_POOL_ENTRIES,
            forall|i: int| 0 <= i < index ==> (#[trigger] entries[i]) is None,
            forall|i: int| 0 <= i < index ==> (#[trigger] objects[i]) is None,
            forall|i: int|
                #![trigger entries[i]]
                #![trigger objects[i]]
                index <= i < HALO_OBJECT_MAX_POOL_ENTRIES ==> object_slot_matches(
                    entries[i],
                    objects[i],
                    bytes@,
                    base as int,
                    count as int,
                    i,
                ),
        decreases index,
    {
        index -= 1;
        match read_object_slot(bytes, base, index) {
            Some((entry, object)) => {
                entries.set(index as usize, Some(entry));
                objects.set(index as usize, Some(object));
            },
            None => {},
        }
    }
    (entries, objects)
}

} // verus!
