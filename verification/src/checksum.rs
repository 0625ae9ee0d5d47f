use crc::{Crc, CRC_8_SMBUS};
use vstd::prelude::*;

verus! {

/// The CRC-8 polynomial x^8 + x^2 + x + 1, without its leading term.
pub const CRC8_POLY: u8 = 0x07;

/// `k` steps of the shift register: each step shifts one bit out to the
/// left and, when that bit was set, folds in the polynomial.
pub open spec fn crc8_shift(c: u8, k: nat) -> u8
    decreases k,
{
    if k == 0 {
        c
    } else {
        let next: u8 = if c & 0x80 == 0x80 { (c << 1u8) ^ CRC8_POLY } else { c << 1u8 };
        crc8_shift(next, (k - 1) as nat)
    }
}

/// The CRC-8 of a byte sequence: the register starts at zero, and each byte
/// is xored into it and shifted through eight steps; nothing is reflected
/// and nothing is xored at the end.
pub open spec fn crc8(bytes: Seq<u8>) -> u8
    decreases bytes.len(),
{
    if bytes.len() == 0 {
        0
    } else {
        crc8_shift(crc8(bytes.drop_last()) ^ bytes.last(), 8)
    }
}

/// Computes `crc::Crc::<u8>::new(&CRC_8_SMBUS).checksum(bytes)`.
/// Trusted: the contract claims that the `crc` crate, with its `CRC_8_SMBUS`
/// catalogue entry (width 8, polynomial 0x07, init and xorout 0, neither
/// input nor output reflected), returns the CRC-8 of exactly these bytes as
/// `crc8` defines it.
#[verifier::external_body]
pub(crate) fn crc8_checksum(bytes: &[u8]) -> (c: u8)
    ensures
        c == crc8(bytes@),
{
    Crc::<u8>::new(&CRC_8_SMBUS).checksum(bytes)
}

} // verus!
