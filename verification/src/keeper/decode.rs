//! Little-endian decoding of fixed-layout account data.
use vstd::prelude::*;

verus! {

/// The `u16` stored little-endian at `d[at..at + 2]`.
pub open spec fn le_u16(d: Seq<u8>, at: int) -> int {
    d[at] + 0x100 * d[at + 1]
}

/// The `u32` stored little-endian at `d[at..at + 4]`.
pub open spec fn le_u32(d: Seq<u8>, at: int) -> int {
    le_u16(d, at) + 0x1_0000 * le_u16(d, at + 2)
}

/// The `u64` stored little-endian at `d[at..at + 8]`.
pub open spec fn le_u64(d: Seq<u8>, at: int) -> int {
    le_u32(d, at) + 0x1_0000_0000 * le_u32(d, at + 4)
}

/// The `u128` stored little-endian at `d[at..at + 16]`.
pub open spec fn le_u128(d: Seq<u8>, at: int) -> int {
    le_u64(d, at) + 0x1_0000_0000_0000_0000 * le_u64(d, at + 8)
}

/// The `i32` stored little-endian, in two's complement, at `d[at..at + 4]`.
pub open spec fn le_i32(d: Seq<u8>, at: int) -> int {
    let u = le_u32(d, at);
    if u < 0x8000_0000 {
        u
    } else {
        u - 0x1_0000_0000
    }
}

/// Reads the `u16` stored little-endian at `data[at..at + 2]`.
pub fn read_u16_le(data: &[u8], at: usize) -> (r: u16)
    requires
        at + 2 <= data@.len(),
    ensures
        r == le_u16(data@, at as int),
{
    data[at] as u16 + (data[at + 1] as u16) * 0x100
}

/// Reads the `u32` stored little-endian at `data[at..at + 4]`.
pub fn read_u32_le(data: &[u8], at: usize) -> (r: u32)
    requires
        at + 4 <= data@.len(),
    ensures
        r == le_u32(data@, at as int),
{
    let lo = read_u16_le(data, at);
    proof {
        assert(data.len() == data@.len());
    }
    let hi = read_u16_le(data, at + 2);
    lo as u32 + (hi as u32) * 0x1_0000
}

/// Reads the `u64` stored little-endian at `data[at..at + 8]`.
pub fn read_u64_le(data: &[u8], at: usize) -> (r: u64)
    requires
        at + 8 <= data@.len(),
    ensures
        r == le_u64(data@, at as int),
{
    let lo = read_u32_le(data, at);
    proof {
        assert(data.len() == data@.len());
    }
    let hi = read_u32_le(data, at + 4);
    lo as u64 + (hi as u64) * 0x1_0000_0000
}

/// Reads the `u128` stored little-endian at `data[at..at + 16]`.
pub fn read_u128_le(data: &[u8], at: usize) -> (r: u128)
    requires
        at + 16 <= data@.len(),
    ensures
        r == le_u128(data@, at as int),
{
    let lo = read_u64_le(data, at);
    proof {
        assert(data.len() == data@.len());
    }
    let hi = read_u64_le(data, at + 8);
    lo as u128 + (hi as u128) * 0x1_0000_0000_0000_0000
}

/// Reads the `i32` stored little-endian, in two's complement, at `data[at..at + 4]`.
pub fn read_i32_le(data: &[u8], at: usize) -> (r: i32)
    requires
        at + 4 <= data@.len(),
    ensures
        r == le_i32(data@, at as int),
{
    let u = read_u32_le(data, at);
    if u < 0x8000_0000 {
        u as i32
    } else {
        i32::MIN + (u - 0x8000_0000) as i32
    }
}

/// Reads the 32-byte account address stored at `data[at..at + 32]`.
pub fn read_key(data: &[u8], at: usize) -> (r: [u8; 32])
    requires
        at + 32 <= data@.len(),
    ensures
        r@ == data@.subrange(at as int, at + 32),
{
    proof {
        assert(data.len() == data@.len());
    }
    let mut key = [0u8; 32];
    let mut i: usize = 0;
    while i < 32
        invariant
            0 <= i <= 32,
            at + 32 <= data@.len(),
            data@.len() <= usize::MAX,
            forall|j: int| 0 <= j < i ==> key[j] == data@[at + j],
        decreases 32 - i,
    {
        key[i] = data[at + i];
        i += 1;
    }
    assert(key@ =~= data@.subrange(at as int, at + 32));
    key
}

} // verus!
