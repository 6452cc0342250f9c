//! Random values for common needs, each from a generator that is seeded
//! from the operating system.

use vstd::prelude::*;

use crate::security::secure_rng::{RngError, SecureRng};

verus! {

/// The upper half of a 64-bit number.
pub open spec fn upper_half(value: u64) -> u32 {
    (value >> 32) as u32
}

/// Whether the lowest bit of a number is set.
pub open spec fn lowest_bit(value: u64) -> bool {
    value & 1 == 1
}

/// The upper half of a 64-bit number.
pub fn high_word(value: u64) -> (out: u32)
    ensures
        out == upper_half(value),
{
    assert(value >> 32 <= 0xffff_ffff) by (bit_vector);
    (value >> 32) as u32
}

/// Whether the lowest bit of a number is set.
pub fn low_bit(value: u64) -> (out: bool)
    ensures
        out == lowest_bit(value),
{
    value & 1 == 1
}

/// `len` random bytes.
pub fn bytes(len: usize) -> (out: Result<Vec<u8>, RngError>)
    ensures
        out matches Ok(b) ==> b@.len() == len,
{
    let mut rng = match SecureRng::new() {
        Ok(r) => r,
        Err(e) => {
            return Err(e);
        },
    };
    rng.bytes(len)
}

/// An array of `N` random bytes.
pub fn array<const N: usize>() -> (out: Result<[u8; N], RngError>) {
    let bytes = match self::bytes(N) {
        Ok(b) => b,
        Err(e) => {
            return Err(e);
        },
    };
    let mut out = [0u8; N];
    let mut i: usize = 0;
    while i < N
        invariant
            i <= N,
            bytes@.len() == N,
        decreases N - i,
    {
        out[i] = bytes[i];
        i += 1;
    }
    Ok(out)
}

/// A random `u64`.
pub fn u64() -> (out: Result<u64, RngError>) {
    let mut rng = match SecureRng::new() {
        Ok(r) => r,
        Err(e) => {
            return Err(e);
        },
    };
    rng.next_u64()
}

/// A random `u32`: the upper half of a random `u64`.
pub fn u32() -> (out: Result<u32, RngError>)
    ensures
        out matches Ok(word) ==> exists|value: u64| word == #[trigger] upper_half(value),
{
    match self::u64() {
        Ok(value) => {
            let word = high_word(value);
            assert(word == upper_half(value));
            Ok(word)
        },
        Err(e) => Err(e),
    }
}

/// A random truth value: the lowest bit of a random `u64`.
pub fn bool() -> (out: Result<bool, RngError>)
    ensures
        out matches Ok(bit) ==> exists|value: u64| bit == #[trigger] lowest_bit(value),
{
    match self::u64() {
        Ok(value) => {
            let bit = low_bit(value);
            assert(bit == lowest_bit(value));
            Ok(bit)
        },
        Err(e) => Err(e),
    }
}

} // verus!
