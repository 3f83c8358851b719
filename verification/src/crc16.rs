//! The two 16-bit cyclic redundancy checks that SOR files are found to carry.
//!
//! Both are computed by the `crc` crate. Their values are not described
//! here: each has a name, and contracts speak of that name.
use crc::{Crc, CRC_16_IBM_3740, CRC_16_KERMIT};
use vstd::prelude::*;

verus! {

/// The CRC-16/IBM-3740 check value (also known as CCITT-FALSE) of the bytes.
pub uninterp spec fn crc16_ibm_3740(bytes: Seq<u8>) -> u16;

/// The CRC-16/KERMIT check value of the bytes.
pub uninterp spec fn crc16_kermit(bytes: Seq<u8>) -> u16;

/// `crc::Crc::<u16>::checksum` with the algorithm `CRC_16_IBM_3740`: the
/// result depends on the bytes alone, and is what [`crc16_ibm_3740`] names.
#[verifier::external_body]
fn checksum_ibm_3740(bytes: &[u8]) -> (r: u16)
    ensures
        r == crc16_ibm_3740(bytes@),
{
    Crc::<u16>::new(&CRC_16_IBM_3740).checksum(bytes)
}

/// `crc::Crc::<u16>::checksum` with the algorithm `CRC_16_KERMIT`: the
/// result depends on the bytes alone, and is what [`crc16_kermit`] names.
#[verifier::external_body]
fn checksum_kermit(bytes: &[u8]) -> (r: u16)
    ensures
        r == crc16_kermit(bytes@),
{
    Crc::<u16>::new(&CRC_16_KERMIT).checksum(bytes)
}

/// Both check values of the bytes: IBM-3740 first, KERMIT second.
pub open spec fn spec_checksums(bytes: Seq<u8>) -> (u16, u16) {
    (crc16_ibm_3740(bytes), crc16_kermit(bytes))
}

/// Computes both check values of the bytes: IBM-3740 first, KERMIT second.
pub fn checksums(bytes: &[u8]) -> (r: (u16, u16))
    ensures
        r == spec_checksums(bytes@),
{
    (checksum_ibm_3740(bytes), checksum_kermit(bytes))
}

} // verus!
