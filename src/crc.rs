//! CRC-32 (reflected polynomial 0xEDB88320) over the little-endian bytes of a
//! 64-bit word, as used for shadow register integrity checks.

use vstd::prelude::*;

verus! {

/// The reflected CRC-32 polynomial.
pub const CRC32_POLY: u32 = 0xEDB8_8320;

/// One bit step of the reflected CRC-32 shift register.
pub open spec fn crc_shift(c: u32) -> u32 {
    if c & 1 != 0 {
        (c >> 1u32) ^ CRC32_POLY
    } else {
        c >> 1u32
    }
}

/// `k` bit steps applied to the register `c`.
pub open spec fn crc_shifts(c: u32, k: nat) -> u32
    decreases k,
{
    if k == 0 {
        c
    } else {
        crc_shift(crc_shifts(c, (k - 1) as nat))
    }
}

/// Byte `i` (little-endian order) of `value`, widened to 32 bits.
pub open spec fn le_byte(value: u64, i: nat) -> u32 {
    ((value >> (8 * i) as u64) & 0xff) as u32
}

/// The register after feeding the first `n` little-endian bytes of `value`.
pub open spec fn crc_bytes(value: u64, n: nat) -> u32
    decreases n,
{
    if n == 0 {
        0xFFFF_FFFFu32
    } else {
        crc_shifts(crc_bytes(value, (n - 1) as nat) ^ le_byte(value, (n - 1) as nat), 8)
    }
}

/// CRC-32 of the eight little-endian bytes of `value`, with the final complement.
pub open spec fn crc32_spec(value: u64) -> u32 {
    !crc_bytes(value, 8)
}

/// Computes the CRC-32 of the little-endian byte representation of `value`.
pub fn crc32(value: u64) -> (r: u32)
    ensures
        r == crc32_spec(value),
{
    let mut crc: u32 = 0xFFFF_FFFF;
    let mut i: u64 = 0;
    while i < 8
        invariant
            i <= 8,
            crc == crc_bytes(value, i as nat),
        decreases 8 - i,
    {
        crc = crc ^ (((value >> (8 * i)) & 0xff) as u32);
        let ghost start = crc;
        let mut k: u32 = 0;
        while k < 8
            invariant
                k <= 8,
                crc == crc_shifts(start, k as nat),
            decreases 8 - k,
        {
            if (crc & 1) != 0 {
                crc = (crc >> 1) ^ CRC32_POLY;
            } else {
                crc = crc >> 1;
            }
            k = k + 1;
        }
        i = i + 1;
    }
    !crc
}

} // verus!
