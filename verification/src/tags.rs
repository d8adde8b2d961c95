//! The tag catalogue: its header, its entries, and the names they give to
//! tag indices.

use crate::text::{read_text, text_at};
use crate::wire::{
    fits, locate, pointer_at, pointer_of, read_array, read_u32_le, readable, resolve_pointer,
    u32_le,
};
use std::collections::HashMap;
use vstd::prelude::*;

verus! {

/// Size in bytes of the tag header.
pub const TAG_HEADER_SIZE: usize = 40;

/// Size in bytes of an entry of the tag table, and so the table's stride.
pub const TAG_ENTRY_SIZE: usize = 32;

/// Bookkeeping of the tag table.
#[derive(Debug)]
pub struct TagHeader {
    /// Stored pointer to the first table entry.
    pub tag_array_ptr: [u8; 4],
    pub tag_index: u32,
    pub map_id: u32,
    pub tag_count: u32,
    pub vertex_count: u32,
    pub vertex_offset: u32,
    pub index_count: u32,
    pub index_offset: u32,
    pub model_data_size: u32,
    /// Guard closing the header.
    pub footer: u32,
}

impl TagHeader {
    /// Whether `self` holds, field by field, what `bytes` stores at `at`.
    pub open spec fn stored_at(&self, bytes: Seq<u8>, at: int) -> bool {
        &&& self.tag_array_ptr@ == bytes.subrange(at, at + 4)
        &&& self.tag_index == u32_le(bytes, at + 4)
        &&& self.map_id == u32_le(bytes, at + 8)
        &&& self.tag_count == u32_le(bytes, at + 12)
        &&& self.vertex_count == u32_le(bytes, at + 16)
        &&& self.vertex_offset == u32_le(bytes, at + 20)
        &&& self.index_count == u32_le(bytes, at + 24)
        &&& self.index_offset == u32_le(bytes, at + 28)
        &&& self.model_data_size == u32_le(bytes, at + 32)
        &&& self.footer == u32_le(bytes, at + 36)
    }

    /// The bytes decide the record: two records that both hold what `bytes`
    /// stores at `at` are one and the same.
    pub proof fn lemma_bytes_decide(first: TagHeader, second: TagHeader, bytes: Seq<u8>, at: int)
        requires
            first.stored_at(bytes, at),
            second.stored_at(bytes, at),
        ensures
            first == second,
    {
        assert(first.tag_array_ptr =~= second.tag_array_ptr);
    }

    /// Reads the header stored at `at`, or nothing when it would reach past
    /// the end of the buffer.
    pub fn read(bytes: &[u8], at: usize) -> (header: Option<TagHeader>)
        ensures
            header is Some <==> readable(bytes@, at as int, TAG_HEADER_SIZE as int),
            header matches Some(h) ==> h.stored_at(bytes@, at as int),
    {
        if !fits(bytes, at, TAG_HEADER_SIZE) {
            return None;
        }
        Some(
            TagHeader {
                tag_array_ptr: read_array::<4>(bytes, at),
                tag_index: read_u32_le(bytes, at + 4),
                map_id: read_u32_le(bytes, at + 8),
                tag_count: read_u32_le(bytes, at + 12),
                vertex_count: read_u32_le(bytes, at + 16),
                vertex_offset: read_u32_le(bytes, at + 20),
                index_count: read_u32_le(bytes, at + 24),
                index_offset: read_u32_le(bytes, at + 28),
                model_data_size: read_u32_le(bytes, at + 32),
                footer: read_u32_le(bytes, at + 36),
            },
        )
    }

    /// The offset of the first table entry.
    pub fn table_offset(&self) -> (offset: u32)
        ensures
            offset == pointer_of(self.tag_array_ptr@),
    {
        resolve_pointer(&self.tag_array_ptr)
    }
}

/// One entry of the tag table.
#[derive(Debug)]
pub struct TagEntry {
    pub tag_class: u32,
    pub tag_class_secondary: u32,
    pub tag_class_tertiary: u32,
    pub tag_index: u32,
    /// Stored pointer to the tag's zero-terminated path.
    pub tag_path_ptr: [u8; 4],
    /// Stored pointer to the tag's data.
    pub tag_data_ptr: [u8; 4],
    pub unknown_1: u32,
    pub unknown_2: u32,
}

impl TagEntry {
    /// Whether `self` holds, field by field, what `bytes` stores at `at`.
    pub open spec fn stored_at(&self, bytes: Seq<u8>, at: int) -> bool {
        &&& self.tag_class == u32_le(bytes, at)
        &&& self.tag_class_secondary == u32_le(bytes, at + 4)
        &&& self.tag_class_tertiary == u32_le(bytes, at + 8)
        &&& self.tag_index == u32_le(bytes, at + 12)
        &&& self.tag_path_ptr@ == bytes.subrange(at + 16, at + 20)
        &&& self.tag_data_ptr@ == bytes.subrange(at + 20, at + 24)
        &&& self.unknown_1 == u32_le(bytes, at + 24)
        &&& self.unknown_2 == u32_le(bytes, at + 28)
    }

    /// The bytes decide the record: two records that both hold what `bytes`
    /// stores at `at` are one and the same.
    pub proof fn lemma_bytes_decide(first: TagEntry, second: TagEntry, bytes: Seq<u8>, at: int)
        requires
            first.stored_at(bytes, at),
            second.stored_at(bytes, at),
        ensures
            first == second,
    {
        assert(first.tag_path_ptr =~= second.tag_path_ptr);
        assert(first.tag_data_ptr =~= second.tag_data_ptr);
    }

    /// Reads the entry stored at `at`, or nothing when it would reach past
    /// the end of the buffer.
    pub fn read(bytes: &[u8], at: usize) -> (entry: Option<TagEntry>)
        ensures
            entry is Some <==> readable(bytes@, at as int, TAG_ENTRY_SIZE as int),
            entry matches Some(e) ==> e.stored_at(bytes@, at as int),
    {
        if !fits(bytes, at, TAG_ENTRY_SIZE) {
            return None;
        }
        Some(
            TagEntry {
                tag_class: read_u32_le(bytes, at),
                tag_class_secondary: read_u32_le(bytes, at + 4),
                tag_class_tertiary: read_u32_le(bytes, at + 8),
                tag_index: read_u32_le(bytes, at + 12),
                tag_path_ptr: read_array::<4>(bytes, at + 16),
                tag_data_ptr: read_array::<4>(bytes, at + 20),
                unknown_1: read_u32_le(bytes, at + 24),
                unknown_2: read_u32_le(bytes, at + 28),
            },
        )
    }

    /// The offset of the tag's path.
    pub fn path_offset(&self) -> (offset: u32)
        ensures
            offset == pointer_of(self.tag_path_ptr@),
    {
        resolve_pointer(&self.tag_path_ptr)
    }
}

/// The offset of the entry at `position` of a tag table that starts at
/// `base`.
pub open spec fn tag_entry_at(base: int, position: int) -> int {
    base + TAG_ENTRY_SIZE * position
}

/// The tag index that the entry at `position` carries.
pub open spec fn tag_key_at(bytes: Seq<u8>, base: int, position: int) -> u32 {
    u32_le(bytes, tag_entry_at(base, position) + 12)
}

/// The name that the entry at `position` gives to its tag: the text its
/// path pointer leads to, or nothing when the entry cannot be read or the
/// text cannot be decoded.
pub open spec fn tag_name_at(bytes: Seq<u8>, base: int, position: int) -> Option<Seq<char>> {
    let entry = tag_entry_at(base, position);
    if readable(bytes, entry, TAG_ENTRY_SIZE as int) {
        text_at(bytes, pointer_at(bytes, entry + 16) as int)
    } else {
        None
    }
}

/// Whether the entry at `position` gives a name to tag index `key`.
pub open spec fn names_tag(bytes: Seq<u8>, base: int, position: int, key: u32) -> bool {
    tag_name_at(bytes, base, position) is Some && tag_key_at(bytes, base, position) == key
}

/// Whether `position` is the first of the table's `count` positions to give
/// a name to tag index `key`.
pub open spec fn first_naming(
    bytes: Seq<u8>,
    base: int,
    count: int,
    key: u32,
    position: int,
) -> bool {
    &&& 0 <= position < count
    &&& names_tag(bytes, base, position, key)
    &&& forall|earlier: int|
        0 <= earlier < position ==> !#[trigger] names_tag(bytes, base, earlier, key)
}

/// What the name map of a snapshot must be for the tag table at `base` with
/// `count` entries: it knows exactly the tag indices that some entry names,
/// and holds for each the name given by the first entry that names it.
pub open spec fn tag_names_match(
    names: Map<u32, String>,
    bytes: Seq<u8>,
    base: int,
    count: int,
) -> bool {
    &&& forall|key: u32|
        names.contains_key(key) <==> exists|position: int|
            0 <= position < count && #[trigger] names_tag(bytes, base, position, key)
    &&& forall|key: u32, position: int| #[trigger]
        first_naming(bytes, base, count, key, position) ==> names.contains_key(key)
            && tag_name_at(bytes, base, position) == Some(names[key]@)
}

/// Among the positions that name a tag index there is a first one.
pub proof fn lemma_some_naming_is_first(
    bytes: Seq<u8>,
    base: int,
    count: int,
    key: u32,
    position: int,
) -> (first: int)
    requires
        0 <= position < count,
        names_tag(bytes, base, position, key),
    ensures
        first <= position,
        first_naming(bytes, base, count, key, first),
    decreases position,
{
    if exists|earlier: int|
        0 <= earlier < position && #[trigger] names_tag(bytes, base, earlier, key) {
        let earlier = choose|earlier: int|
            0 <= earlier < position && #[trigger] names_tag(bytes, base, earlier, key);
        lemma_some_naming_is_first(bytes, base, count, key, earlier)
    } else {
        position
    }
}

/// The bytes decide the names: two maps that both match one tag table know
/// the same tag indices under the same names.
pub proof fn lemma_bytes_decide_names(
    first: Map<u32, String>,
    second: Map<u32, String>,
    bytes: Seq<u8>,
    base: int,
    count: int,
)
    requires
        tag_names_match(first, bytes, base, count),
        tag_names_match(second, bytes, base, count),
    ensures
        first.dom() =~= second.dom(),
        forall|key: u32| #[trigger] first.contains_key(key) ==> first[key]@ == second[key]@,
{
    assert forall|key: u32| first.contains_key(key) <==> second.contains_key(key) by {}
    assert forall|key: u32| #[trigger] first.contains_key(key) implies first[key]@
        == second[key]@ by {
        let position = choose|position: int|
            0 <= position < count && #[trigger] names_tag(bytes, base, position, key);
        let earliest = lemma_some_naming_is_first(bytes, base, count, key, position);
        assert(first_naming(bytes, base, count, key, earliest));
    }
}

/// Past the entry at `position` the map stays as it is when that entry
/// names nothing, or names a tag index the map already knows.
proof fn lemma_scan_keeps(names: Map<u32, String>, bytes: Seq<u8>, base: int, position: int)
    requires
        0 <= position,
        tag_names_match(names, bytes, base, position),
        tag_name_at(bytes, base, position) is None || names.contains_key(
            tag_key_at(bytes, base, position),
        ),
    ensures
        tag_names_match(names, bytes, base, position + 1),
{
    let here = tag_key_at(bytes, base, position);
    assert forall|key: u32|
        names.contains_key(key) <==> exists|p: int|
            0 <= p < position + 1 && #[trigger] names_tag(bytes, base, p, key) by {
        if names.contains_key(key) {
            let p = choose|p: int| 0 <= p < position && #[trigger] names_tag(bytes, base, p, key);
            assert(0 <= p < position + 1 && names_tag(bytes, base, p, key));
        }
        if exists|p: int| 0 <= p < position + 1 && #[trigger] names_tag(bytes, base, p, key) {
            let p = choose|p: int|
                0 <= p < position + 1 && #[trigger] names_tag(bytes, base, p, key);
            if p == position {
                assert(key == here);
            } else {
                assert(0 <= p < position && names_tag(bytes, base, p, key));
            }
        }
    }
    assert forall|key: u32, p: int| #[trigger]
        first_naming(bytes, base, position + 1, key, p) implies names.contains_key(key)
        && tag_name_at(bytes, base, p) == Some(names[key]@) by {
        if p == position {
            assert(key == here);
            let q = choose|q: int| 0 <= q < position && #[trigger] names_tag(bytes, base, q, key);
            assert(!names_tag(bytes, base, q, key));
        } else {
            assert(first_naming(bytes, base, position, key, p));
        }
    }
}

/// Past the entry at `position` the map has one more name when that entry
/// names a tag index the map does not know yet.
proof fn lemma_scan_inserts(
    names: Map<u32, String>,
    bytes: Seq<u8>,
    base: int,
    position: int,
    name: String,
)
    requires
        0 <= position,
        tag_names_match(names, bytes, base, position),
        tag_name_at(bytes, base, position) == Some(name@),
        !names.contains_key(tag_key_at(bytes, base, position)),
    ensures
        tag_names_match(
            names.insert(tag_key_at(bytes, base, position), name),
            bytes,
            base,
            position + 1,
        ),
{
    let here = tag_key_at(bytes, base, position);
    let grown = names.insert(here, name);
    assert(names_tag(bytes, base, position, here));
    assert forall|key: u32|
        grown.contains_key(key) <==> exists|p: int|
            0 <= p < position + 1 && #[trigger] names_tag(bytes, base, p, key) by {
        if grown.contains_key(key) {
            if key == here {
                assert(0 <= position < position + 1 && names_tag(bytes, base, position, key));
            } else {
                let p = choose|p: int|
                    0 <= p < position && #[trigger] names_tag(bytes, base, p, key);
                assert(0 <= p < position + 1 && names_tag(bytes, base, p, key));
            }
        }
        if exists|p: int| 0 <= p < position + 1 && #[trigger] names_tag(bytes, base, p, key) {
            let p = choose|p: int|
                0 <= p < position + 1 && #[trigger] names_tag(bytes, base, p, key);
            if p != position {
                assert(0 <= p < position && names_tag(bytes, base, p, key));
            }
        }
    }
    assert forall|key: u32, p: int| #[trigger]
        first_naming(bytes, base, position + 1, key, p) implies grown.contains_key(key)
        && tag_name_at(bytes, base, p) == Some(grown[key]@) by {
        if p != position {
            assert(first_naming(bytes, base, position, key, p));
            assert(0 <= p < position && names_tag(bytes, base, p, key));
            assert(names.contains_key(key));
            assert(key != here);
        }
    }
}

/// Once an entry reaches past the end of the buffer, so does every later
/// one: the positions from `position` on name nothing.
proof fn lemma_scan_ends(
    names: Map<u32, String>,
    bytes: Seq<u8>,
    base: int,
    position: int,
    count: int,
)
    requires
        0 <= base,
        0 <= position <= count,
        tag_names_match(names, bytes, base, position),
        position < count ==> !readable(
            bytes,
            tag_entry_at(base, position),
            TAG_ENTRY_SIZE as int,
        ),
    ensures
        tag_names_match(names, bytes, base, count),
{
    assert forall|key: u32, p: int| position <= p < count implies !#[trigger] names_tag(
        bytes,
        base,
        p,
        key,
    ) by {
        assert(!readable(bytes, tag_entry_at(base, p), TAG_ENTRY_SIZE as int));
    }
    assert forall|key: u32|
        names.contains_key(key) <==> exists|p: int|
            0 <= p < count && #[trigger] names_tag(bytes, base, p, key) by {
        if names.contains_key(key) {
            let p = choose|p: int| 0 <= p < position && #[trigger] names_tag(bytes, base, p, key);
            assert(0 <= p < count && names_tag(bytes, base, p, key));
        }
        if exists|p: int| 0 <= p < count && #[trigger] names_tag(bytes, base, p, key) {
            let p = choose|p: int| 0 <= p < count && #[trigger] names_tag(bytes, base, p, key);
            assert(0 <= p < position && names_tag(bytes, base, p, key));
        }
    }
    assert forall|key: u32, p: int| #[trigger]
        first_naming(bytes, base, count, key, p) implies names.contains_key(key) && tag_name_at(
        bytes,
        base,
        p,
    ) == Some(names[key]@) by {
        assert(first_naming(bytes, base, position, key, p));
    }
}

/// Walks the tag table at `base` from its first entry to its last and
/// collects the names of the tags. An entry that cannot be read, or whose
/// path cannot be decoded, is passed over; of several entries that carry
/// one tag index, the first to give a name decides.
pub fn scan_tag_names(bytes: &[u8], base: u32, count: u32) -> (names: HashMap<u32, String>)
    ensures
        tag_names_match(names@, bytes@, base as int, count as int),
{
    broadcast use vstd::std_specs::hash::group_hash_axioms;

    let mut names: HashMap<u32, String> = HashMap::new();
    let stride: u64 = TAG_ENTRY_SIZE as u64;
    let mut position: u32 = 0;
    let mut in_reach: bool = true;
    while in_reach && position < count
        invariant
            position <= count,
            stride == TAG_ENTRY_SIZE,
            tag_names_match(names@, bytes@, base as int, position as int),
            !in_reach ==> position < count && !readable(
                bytes@,
                tag_entry_at(base as int, position as int),
                TAG_ENTRY_SIZE as int,
            ),
        decreases count - position + (if in_reach { 1int } else { 0int }),
    {
        let address: u64 = base as u64 + stride * (position as u64);
        match locate(bytes, address, TAG_ENTRY_SIZE) {
            Some(entry_at) => {
                match TagEntry::read(bytes, entry_at) {
                    Some(entry) => {
                        let mut named: bool = false;
                        if !names.contains_key(&entry.tag_index) {
                            match read_text(bytes, entry.path_offset() as usize) {
                                Some(name) => {
                                    proof {
                                        lemma_scan_inserts(
                                            names@,
                                            bytes@,
                                            base as int,
                                            position as int,
                                            name,
                                        );
                                    }
                                    names.insert(entry.tag_index, name);
                                    named = true;
                                },
                                None => {},
                            }
                        }
                        proof {
                            if !named {
                                lemma_scan_keeps(names@, bytes@, base as int, position as int);
                            }
                        }
                    },
                    None => {},
                }
                position += 1;
            },
            None => {
                in_reach = false;
            },
        }
    }
    proof {
        lemma_scan_ends(names@, bytes@, base as int, position as int, count as int);
    }
    names
}

} // verus!
