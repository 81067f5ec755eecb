//! Word-level helpers: wrapping 16-bit addition, sign extension of narrow
//! immediate fields, and assembly of a big-endian byte pair into a word.

use vstd::prelude::*;

verus! {

/// 16-bit wraparound (two's-complement) addition: all address and data
/// arithmetic of the machine is computed modulo 2^16.
pub open spec fn wadd(a: u16, b: u16) -> u16 {
    ((a + b) % 0x10000) as u16
}

/// Executable wraparound addition.
pub fn wadd16(a: u16, b: u16) -> (r: u16)
    ensures
        r == wadd(a, b),
{
    proof {
        if a + b > 0xFFFF {
            assert((a + b) % 0x10000 == a + b - 0x10000);
        } else {
            assert((a + b) % 0x10000 == a + b);
        }
    }
    a.wrapping_add(b)
}

/// Sign extension of the low `bits` bits of `v`: bit `bits - 1` is replicated
/// into every higher bit, yielding the 16-bit two's-complement value of the
/// narrow field.
pub open spec fn sext(v: u16, bits: u16) -> u16
    recommends
        1 <= bits < 16,
{
    if (v >> (bits - 1) as u16) & 1 == 1 {
        v | (0xFFFFu16 << bits)
    } else {
        v & !(0xFFFFu16 << bits)
    }
}

/// Sign-extends the low `bit_count` bits of `value` to a full 16-bit word.
pub fn sign_extend(value: u16, bit_count: u16) -> (r: u16)
    requires
        1 <= bit_count < 16,
    ensures
        r == sext(value, bit_count),
{
    if (value >> (bit_count - 1)) & 1 == 1 {
        value | (0xFFFFu16 << bit_count)
    } else {
        value & !(0xFFFFu16 << bit_count)
    }
}

/// The 16-bit word held by a big-endian byte pair.
pub open spec fn word_of_bytes(hi: u8, lo: u8) -> u16 {
    (hi * 0x100 + lo) as u16
}

/// Assembles a big-endian byte pair into a word: `bytes[0]` is the high byte.
pub fn swap16(bytes: [u8; 2]) -> (r: u16)
    ensures
        r == word_of_bytes(bytes[0], bytes[1]),
{
    let hi = bytes[0];
    let lo = bytes[1];
    let r = ((hi as u16) << 8) | (lo as u16);
    proof {
        assert(((hi as u16) << 8) | (lo as u16) == hi * 0x100 + lo) by (bit_vector);
    }
    r
}

} // verus!
