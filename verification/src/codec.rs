//! The packed64 convention: a 32-bit address and a 32-bit byte length
//! combined into a single 64-bit value, address in the high half and length
//! in the low half. It is used where the calling convention allows only one
//! return value but two are needed.

use vstd::prelude::*;

verus! {

/// The packed64 value for the given address and length: the address occupies
/// the high 32 bits, the length the low 32 bits.
pub open spec fn pack(addr: u32, len: u32) -> u64 {
    ((addr as u64) << 32) | (len as u64)
}

/// The address held in the high 32 bits of a packed64 value.
pub open spec fn unpack_addr(packed: u64) -> u32 {
    (packed >> 32) as u32
}

/// The length held in the low 32 bits of a packed64 value.
pub open spec fn unpack_len(packed: u64) -> u32 {
    (packed & 0xFFFF_FFFF) as u32
}

/// Packs an (address, length) pair into a single 64-bit value.
pub fn encode(addr: u32, len: u32) -> (r: u64)
    ensures
        r == pack(addr, len),
        unpack_addr(r) == addr,
        unpack_len(r) == len,
{
    proof {
        lemma_pack_round_trip(addr, len);
    }
    ((addr as u64) << 32) | (len as u64)
}

/// Unpacks a 64-bit value into its (address, length) pair.
pub fn decode(packed: u64) -> (r: (u32, u32))
    ensures
        r.0 == unpack_addr(packed),
        r.1 == unpack_len(packed),
        pack(r.0, r.1) == packed,
{
    proof {
        lemma_unpack_pack(packed);
        assert((packed & 0xFFFF_FFFF) <= 0xFFFF_FFFF) by (bit_vector);
    }
    ((packed >> 32) as u32, (packed & 0xFFFF_FFFF) as u32)
}

/// Packing an (address, length) pair and unpacking the result gives back the
/// pair, for every address and length representable in 32 bits.
pub proof fn lemma_pack_round_trip(addr: u32, len: u32)
    ensures
        unpack_addr(pack(addr, len)) == addr,
        unpack_len(pack(addr, len)) == len,
{
    assert(((((addr as u64) << 32) | (len as u64)) >> 32) as u32 == addr) by (bit_vector);
    assert(((((addr as u64) << 32) | (len as u64)) & 0xFFFF_FFFF) as u32 == len) by (bit_vector);
}

/// Unpacking a 64-bit value and packing the parts again gives back the value:
/// the two 32-bit halves carry all of it.
pub proof fn lemma_unpack_pack(packed: u64)
    ensures
        pack(unpack_addr(packed), unpack_len(packed)) == packed,
{
    assert((((packed >> 32) as u32 as u64) << 32) | ((packed & 0xFFFF_FFFF) as u32 as u64)
        == packed) by (bit_vector);
}

} // verus!
