//! Datum handles: 32-bit references to slots of a fixed-capacity table.

use vstd::prelude::*;

verus! {

/// The raw value of the handle that names slot `index` in generation `id`:
/// the generation in the high 16 bits, the index in the low 16 bits.
pub open spec fn pack(index: u16, id: u16) -> u32 {
    (id as int * 0x1_0000 + index as int) as u32
}

/// The slot index held in the low 16 bits of a raw handle.
pub open spec fn index_of(raw: u32) -> u16 {
    (raw % 0x1_0000) as u16
}

/// The generation (salt) held in the high 16 bits of a raw handle.
pub open spec fn id_of(raw: u32) -> u16 {
    (raw / 0x1_0000) as u16
}

/// A reference to a table slot: the slot's position together with the
/// generation counter under which the slot was handed out.
#[derive(Clone, Copy, Debug, PartialEq, Eq, Structural)]
pub struct DatumHandle(pub u32);

impl DatumHandle {
    /// The slot index this handle refers to.
    pub open spec fn spec_index(self) -> u16 {
        index_of(self.0)
    }

    /// The generation this handle was issued under.
    pub open spec fn spec_id(self) -> u16 {
        id_of(self.0)
    }

    /// Two handles name the same slot when their indices agree; the
    /// generation only tells whether the slot was reused in between.
    pub open spec fn spec_same_slot(self, other: DatumHandle) -> bool {
        self.spec_index() == other.spec_index()
    }

    pub fn new_from_index_id(index: u16, id: u16) -> (handle: DatumHandle)
        ensures
            handle.0 == pack(index, id),
            handle.spec_index() == index,
            handle.spec_id() == id,
    {
        let raw: u32 = ((id as u32) << 16) | (index as u32);
        assert(raw == id as int * 0x1_0000 + index as int) by (bit_vector)
            requires
                raw == ((id as u32) << 16) | (index as u32),
        ;
        DatumHandle(raw)
    }

    pub fn get_index(&self) -> (index: u16)
        ensures
            index == self.spec_index(),
    {
        let raw: u32 = self.0;
        let lower_word: u32 = raw & 0xFFFF;
        assert(lower_word == raw % 0x1_0000) by (bit_vector)
            requires
                lower_word == raw & 0xFFFF,
        ;
        lower_word as u16
    }

    /// The generation counter, also known as the salt.
    pub fn get_id(&self) -> (id: u16)
        ensures
            id == self.spec_id(),
    {
        let raw: u32 = self.0;
        let upper_word: u32 = (raw >> 16) & 0xFFFF;
        assert(upper_word == raw / 0x1_0000) by (bit_vector)
            requires
                upper_word == (raw >> 16) & 0xFFFF,
        ;
        upper_word as u16
    }

    pub fn get_handle(&self) -> (raw: u32)
        ensures
            raw == self.0,
    {
        self.0
    }

    /// Whether `self` and `other` refer to the same slot, whatever their
    /// generations.
    pub fn same_slot(&self, other: &DatumHandle) -> (same: bool)
        ensures
            same == self.spec_same_slot(*other),
    {
        self.get_index() == other.get_index()
    }
}

/// Packing an index and a generation and taking the handle apart again
/// gives back both, for every pair of 16-bit values.
pub proof fn lemma_pack_then_unpack(index: u16, id: u16)
    ensures
        index_of(pack(index, id)) == index,
        id_of(pack(index, id)) == id,
{
}

/// Every 32-bit value is the handle of exactly the index and generation
/// that it unpacks to.
pub proof fn lemma_unpack_then_pack(raw: u32)
    ensures
        pack(index_of(raw), id_of(raw)) == raw,
{
}

} // verus!
