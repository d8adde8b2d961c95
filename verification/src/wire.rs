//! Bounds-checked little-endian reads from a captured buffer.
//!
//! Every multi-byte field of the format is little-endian. Pointer fields are
//! stored as four bytes of which only the low three are significant.

use vstd::prelude::*;

verus! {

/// Whether the `len` bytes starting at offset `at` all lie inside `bytes`.
pub open spec fn readable(bytes: Seq<u8>, at: int, len: int) -> bool {
    0 <= at && 0 <= len && at + len <= bytes.len()
}

/// The unsigned 16-bit value stored at `at`.
pub open spec fn u16_le(bytes: Seq<u8>, at: int) -> u16 {
    (bytes[at] as int + 0x100 * bytes[at + 1] as int) as u16
}

/// The unsigned 32-bit value stored at `at`.
pub open spec fn u32_le(bytes: Seq<u8>, at: int) -> u32 {
    (bytes[at] as int + 0x100 * bytes[at + 1] as int + 0x1_0000 * bytes[at + 2] as int + 0x100_0000
        * bytes[at + 3] as int) as u32
}

/// The two's-complement 32-bit value stored at `at`.
pub open spec fn i32_le(bytes: Seq<u8>, at: int) -> i32 {
    let unsigned = u32_le(bytes, at);
    if unsigned < 0x8000_0000 {
        unsigned as i32
    } else {
        (unsigned as int - 0x1_0000_0000) as i32
    }
}

/// The buffer offset that a stored pointer field stands for: its three low
/// bytes, little-endian, under a zero high byte. The fourth stored byte is
/// ignored.
pub open spec fn pointer_of(raw: Seq<u8>) -> u32 {
    (raw[0] as int + 0x100 * raw[1] as int + 0x1_0000 * raw[2] as int) as u32
}

/// The offset held by the pointer field stored at `at`.
pub open spec fn pointer_at(bytes: Seq<u8>, at: int) -> u32 {
    pointer_of(bytes.subrange(at, at + 4))
}

/// The `count` unsigned 16-bit values stored back to back from `at` on.
pub open spec fn u16s_at(bytes: Seq<u8>, at: int, count: nat) -> Seq<u16> {
    Seq::new(count, |k: int| u16_le(bytes, at + 2 * k))
}

/// The `count` unsigned 32-bit values stored back to back from `at` on.
pub open spec fn u32s_at(bytes: Seq<u8>, at: int, count: nat) -> Seq<u32> {
    Seq::new(count, |k: int| u32_le(bytes, at + 4 * k))
}

/// The `count` signed 32-bit values stored back to back from `at` on.
pub open spec fn i32s_at(bytes: Seq<u8>, at: int, count: nat) -> Seq<i32> {
    Seq::new(count, |k: int| i32_le(bytes, at + 4 * k))
}

/// Tells whether `len` bytes can be read at `at` without leaving the buffer.
pub fn fits(bytes: &[u8], at: usize, len: usize) -> (ok: bool)
    ensures
        ok == readable(bytes@, at as int, len as int),
        ok ==> at + len <= usize::MAX,
{
    at <= bytes.len() && len <= bytes.len() - at
}

pub(crate) fn read_u8(bytes: &[u8], at: usize) -> (value: u8)
    requires
        readable(bytes@, at as int, 1),
    ensures
        value == bytes@[at as int],
{
    bytes[at]
}

pub(crate) fn read_u16_le(bytes: &[u8], at: usize) -> (value: u16)
    requires
        readable(bytes@, at as int, 2),
    ensures
        value == u16_le(bytes@, at as int),
{
    bytes[at] as u16 + 0x100 * (bytes[at + 1] as u16)
}

pub(crate) fn read_u32_le(bytes: &[u8], at: usize) -> (value: u32)
    requires
        readable(bytes@, at as int, 4),
    ensures
        value == u32_le(bytes@, at as int),
{
    bytes[at] as u32 + 0x100 * (bytes[at + 1] as u32) + 0x1_0000 * (bytes[at + 2] as u32)
        + 0x100_0000 * (bytes[at + 3] as u32)
}

pub(crate) fn read_i32_le(bytes: &[u8], at: usize) -> (value: i32)
    requires
        readable(bytes@, at as int, 4),
    ensures
        value == i32_le(bytes@, at as int),
{
    let unsigned: u32 = read_u32_le(bytes, at);
    if unsigned < 0x8000_0000 {
        unsigned as i32
    } else {
        ((unsigned - 0x8000_0000) as i32) + i32::MIN
    }
}

/// Copies the `N` bytes stored at `at`.
pub(crate) fn read_array<const N: usize>(bytes: &[u8], at: usize) -> (out: [u8; N])
    requires
        readable(bytes@, at as int, N as int),
    ensures
        out@ == bytes@.subrange(at as int, at + N),
{
    let mut out: [u8; N] = [0u8; N];
    let mut filled: usize = 0;
    while filled < N
        invariant
            filled <= N,
            at + N <= bytes.len(),
            forall|k: int| 0 <= k < filled ==> out@[k] == bytes@[at + k],
        decreases N - filled,
    {
        out[filled] = bytes[at + filled];
        filled += 1;
    }
    assert(out@ =~= bytes@.subrange(at as int, at + N));
    out
}

/// Reads the `N` unsigned 16-bit values stored back to back from `at` on.
pub(crate) fn read_u16_array<const N: usize>(bytes: &[u8], at: usize) -> (out: [u16; N])
    requires
        readable(bytes@, at as int, 2 * N),
    ensures
        out@ == u16s_at(bytes@, at as int, N as nat),
{
    let mut out: [u16; N] = [0u16; N];
    let mut filled: usize = 0;
    while filled < N
        invariant
            filled <= N,
            at + 2 * N <= bytes.len(),
            forall|k: int| 0 <= k < filled ==> out@[k] == u16_le(bytes@, at + 2 * k),
        decreases N - filled,
    {
        out[filled] = read_u16_le(bytes, at + 2 * filled);
        filled += 1;
    }
    assert(out@ =~= u16s_at(bytes@, at as int, N as nat));
    out
}

/// Reads the `N` unsigned 32-bit values stored back to back from `at` on.
pub(crate) fn read_u32_array<const N: usize>(bytes: &[u8], at: usize) -> (out: [u32; N])
    requires
        readable(bytes@, at as int, 4 * N),
    ensures
        out@ == u32s_at(bytes@, at as int, N as nat),
{
    let mut out: [u32; N] = [0u32; N];
    let mut filled: usize = 0;
    while filled < N
        invariant
            filled <= N,
            at + 4 * N <= bytes.len(),
            forall|k: int| 0 <= k < filled ==> out@[k] == u32_le(bytes@, at + 4 * k),
        decreases N - filled,
    {
        out[filled] = read_u32_le(bytes, at + 4 * filled);
        filled += 1;
    }
    assert(out@ =~= u32s_at(bytes@, at as int, N as nat));
    out
}

/// Reads the `N` signed 32-bit values stored back to back from `at` on.
pub(crate) fn read_i32_array<const N: usize>(bytes: &[u8], at: usize) -> (out: [i32; N])
    requires
        readable(bytes@, at as int, 4 * N),
    ensures
        out@ == i32s_at(bytes@, at as int, N as nat),
{
    let mut out: [i32; N] = [0i32; N];
    let mut filled: usize = 0;
    while filled < N
        invariant
            filled <= N,
            at + 4 * N <= bytes.len(),
            forall|k: int| 0 <= k < filled ==> out@[k] == i32_le(bytes@, at + 4 * k),
        decreases N - filled,
    {
        out[filled] = read_i32_le(bytes, at + 4 * filled);
        filled += 1;
    }
    assert(out@ =~= i32s_at(bytes@, at as int, N as nat));
    out
}

/// Turns a computed address into an offset at which `len` bytes can be read,
/// if there is one.
pub(crate) fn locate(bytes: &[u8], at: u64, len: usize) -> (offset: Option<usize>)
    ensures
        offset is Some <==> readable(bytes@, at as int, len as int),
        offset matches Some(found) ==> found == at && found + len <= usize::MAX,
{
    let size: usize = bytes.len();
    if at <= size as u64 && len <= size - (at as usize) {
        Some(at as usize)
    } else {
        None
    }
}

/// Resolves a stored pointer field to the buffer offset it stands for.
pub fn resolve_pointer(raw: &[u8; 4]) -> (offset: u32)
    ensures
        offset == pointer_of(raw@),
        offset < 0x100_0000,
{
    raw[0] as u32 + 0x100 * (raw[1] as u32) + 0x1_0000 * (raw[2] as u32)
}

} // verus!
