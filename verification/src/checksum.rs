//! The sensor's CRC-8: polynomial 0x31, initial value 0xFF, no reflection,
//! no final XOR.

use vstd::prelude::*;

verus! {

/// Generator polynomial x^8 + x^5 + x^4 + 1, without its leading term.
pub const CRC_POLYNOMIAL: u8 = 0x31;

/// Value of the CRC register before the first byte is taken in.
pub const CRC_INIT: u8 = 0xff;

/// Value XORed onto the register after the last byte.
pub const CRC_XOR_OUT: u8 = 0x00;

/// One bit of polynomial division: shift the register left and subtract the
/// polynomial when a one was shifted out.
pub open spec fn crc_shift(poly: u8, reg: u8) -> u8 {
    if reg & 0x80 != 0 {
        (reg << 1) ^ poly
    } else {
        reg << 1
    }
}

/// Eight bits of polynomial division.
pub open spec fn crc_byte(poly: u8, reg: u8) -> u8 {
    crc_shift(
        poly,
        crc_shift(
            poly,
            crc_shift(
                poly,
                crc_shift(poly, crc_shift(poly, crc_shift(poly, crc_shift(poly, crc_shift(poly, reg))))),
            ),
        ),
    )
}

/// The register after `data` was taken in, most significant bit first,
/// starting from `reg`.
pub open spec fn crc_fold(poly: u8, reg: u8, data: Seq<u8>) -> u8
    decreases data.len(),
{
    if data.len() == 0 {
        reg
    } else {
        crc_byte(poly, crc_fold(poly, reg, data.drop_last()) ^ data.last())
    }
}

/// The unreflected eight-bit CRC of `data` for the given parameters.
pub open spec fn crc8_with(poly: u8, init: u8, xor_out: u8, data: Seq<u8>) -> u8 {
    crc_fold(poly, init, data) ^ xor_out
}

/// The checksum the sensor puts behind every two-byte word.
pub open spec fn spec_crc8(data: Seq<u8>) -> u8 {
    crc8_with(CRC_POLYNOMIAL, CRC_INIT, CRC_XOR_OUT, data)
}

/// The checksum of the bytes 0xBE 0xEF is 0x92, as the sensor's interface
/// description has it.
pub proof fn lemma_crc8_of_example()
    ensures
        spec_crc8(seq![0xbeu8, 0xefu8]) == 0x92,
{
    let data = seq![0xbeu8, 0xefu8];
    reveal_with_fuel(crc_fold, 3);
    assert(data.drop_last() =~= seq![0xbeu8]);
    assert(data.drop_last().drop_last() =~= Seq::<u8>::empty());
    assert(0xffu8 ^ 0xbeu8 == 0x41u8) by (bit_vector);
    assert(crc_byte(0x31u8, 0x41u8) == 0x0cu8) by (bit_vector);
    assert(0x0cu8 ^ 0xefu8 == 0xe3u8) by (bit_vector);
    assert(crc_byte(0x31u8, 0xe3u8) == 0x92u8) by (bit_vector);
    assert(0x92u8 ^ 0x00u8 == 0x92u8) by (bit_vector);
    assert(crc_fold(0x31, 0xff, data.drop_last()) == 0x0c);
}

/// Runs `crc_all::Crc::<u8>::new(poly, width, init, xor_out, reflect)` over
/// `data` with `update`. For the full register width and no reflection the
/// crate looks each byte up in a table of `crc_byte`, XORs the final
/// register with `xor_out`, and returns that; this is taken on trust.
#[verifier::external_body]
fn crc_all_u8(poly: u8, width: usize, init: u8, xor_out: u8, reflect: bool, data: &[u8]) -> (crc: u8)
    requires
        width == 8,
        !reflect,
    ensures
        crc == crc8_with(poly, init, xor_out, data@),
{
    crc_all::Crc::<u8>::new(poly, width, init, xor_out, reflect).update(data)
}

/// Computes the sensor's checksum over `data`.
pub fn crc8(data: &[u8]) -> (crc: u8)
    ensures
        crc == spec_crc8(data@),
{
    crc_all_u8(CRC_POLYNOMIAL, 8, CRC_INIT, CRC_XOR_OUT, false, data)
}

} // verus!
