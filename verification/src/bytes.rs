//! Little-endian integers in byte strings.

use vstd::prelude::*;

verus! {

/// The 16-bit little-endian integer that starts at `offset`.
pub open spec fn spec_u16_le(bytes: Seq<u8>, offset: int) -> int {
    bytes[offset] as int + 0x100 * (bytes[offset + 1] as int)
}

/// The 32-bit little-endian integer that starts at `offset`.
pub open spec fn spec_u32_le(bytes: Seq<u8>, offset: int) -> int {
    spec_u16_le(bytes, offset) + 0x1_0000 * spec_u16_le(bytes, offset + 2)
}

/// The 64-bit little-endian integer that starts at `offset`.
pub open spec fn spec_u64_le(bytes: Seq<u8>, offset: int) -> int {
    spec_u32_le(bytes, offset) + 0x1_0000_0000 * spec_u32_le(bytes, offset + 4)
}

/// Reads a 16-bit little-endian integer, or nothing where the bytes end too early.
pub fn read_u16_le(bytes: &[u8], offset: usize) -> (res: Option<u16>)
    ensures
        res is Some <==> offset + 2 <= bytes@.len(),
        res matches Some(v) ==> v as int == spec_u16_le(bytes@, offset as int),
{
    if offset > bytes.len() || bytes.len() - offset < 2 {
        return None;
    }
    Some(bytes[offset] as u16 + 0x100 * (bytes[offset + 1] as u16))
}

/// Reads a 32-bit little-endian integer, or nothing where the bytes end too early.
pub fn read_u32_le(bytes: &[u8], offset: usize) -> (res: Option<u32>)
    ensures
        res is Some <==> offset + 4 <= bytes@.len(),
        res matches Some(v) ==> v as int == spec_u32_le(bytes@, offset as int),
{
    if offset > bytes.len() || bytes.len() - offset < 4 {
        return None;
    }
    let low = bytes[offset] as u32 + 0x100 * (bytes[offset + 1] as u32);
    let high = bytes[offset + 2] as u32 + 0x100 * (bytes[offset + 3] as u32);
    Some(low + 0x1_0000 * high)
}

/// Reads a 64-bit little-endian integer, or nothing where the bytes end too early.
pub fn read_u64_le(bytes: &[u8], offset: usize) -> (res: Option<u64>)
    ensures
        res is Some <==> offset + 8 <= bytes@.len(),
        res matches Some(v) ==> v as int == spec_u64_le(bytes@, offset as int),
{
    if offset > bytes.len() || bytes.len() - offset < 8 {
        return None;
    }
    let low = match read_u32_le(bytes, offset) {
        Some(v) => v,
        None => { return None; },
    };
    let high = match read_u32_le(bytes, offset + 4) {
        Some(v) => v,
        None => { return None; },
    };
    Some(low as u64 + 0x1_0000_0000 * (high as u64))
}

/// Tells whether two byte strings hold the same bytes.
pub fn bytes_equal(a: &[u8], b: &[u8]) -> (same: bool)
    ensures
        same <==> a@ == b@,
{
    if a.len() != b.len() {
        return false;
    }
    let mut i: usize = 0;
    while i < a.len()
        invariant
            i <= a@.len(),
            a@.len() == b@.len(),
            forall|j: int| 0 <= j < i ==> a@[j] == b@[j],
        decreases a@.len() - i,
    {
        if a[i] != b[i] {
            return false;
        }
        i += 1;
    }
    assert(a@ =~= b@);
    true
}

} // verus!
