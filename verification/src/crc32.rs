//! The CRC-32 checksum of ZIP: the reflected polynomial 0xEDB88320, with
//! the register started at all ones and inverted at the end.

use vstd::prelude::*;

verus! {

/// The generator polynomial, lowest-order bit first.
pub const CRC32_POLYNOMIAL: u32 = 0xEDB88320;

/// The register after one bit of input has been shifted out.
pub open spec fn crc32_shift(c: u32) -> u32 {
    if c & 1 == 1 {
        (c >> 1) ^ CRC32_POLYNOMIAL
    } else {
        c >> 1
    }
}

/// The register after the byte `b` has been fed into it.
pub open spec fn crc32_update(c: u32, b: u8) -> u32 {
    crc32_shift(
        crc32_shift(
            crc32_shift(
                crc32_shift(crc32_shift(crc32_shift(crc32_shift(crc32_shift(c ^ (b as u32)))))),
            ),
        ),
    )
}

/// The register after all of `bytes` have been fed into it.
pub open spec fn crc32_register(bytes: Seq<u8>) -> u32
    decreases bytes.len(),
{
    if bytes.len() == 0 {
        0xFFFF_FFFF
    } else {
        crc32_update(crc32_register(bytes.drop_last()), bytes.last())
    }
}

/// The CRC-32 of `bytes`.
pub open spec fn crc32_of(bytes: Seq<u8>) -> u32 {
    crc32_register(bytes) ^ 0xFFFF_FFFF
}

/// Shifts one bit of input out of the register.
fn shift(c: u32) -> (r: u32)
    ensures
        r == crc32_shift(c),
{
    if c & 1 == 1 {
        (c >> 1) ^ CRC32_POLYNOMIAL
    } else {
        c >> 1
    }
}

/// Feeds one byte into the register.
fn update(c: u32, b: u8) -> (r: u32)
    ensures
        r == crc32_update(c, b),
{
    shift(shift(shift(shift(shift(shift(shift(shift(c ^ (b as u32)))))))))
}

/// Computes the CRC-32 of `data`.
pub fn crc32(data: &[u8]) -> (c: u32)
    ensures
        c == crc32_of(data@),
{
    let mut c: u32 = 0xFFFF_FFFF;
    let mut i: usize = 0;
    while i < data.len()
        invariant
            i <= data@.len(),
            c == crc32_register(data@.take(i as int)),
        decreases data@.len() - i,
    {
        proof {
            assert(data@.take(i + 1).drop_last() =~= data@.take(i as int));
        }
        c = update(c, data[i]);
        i = i + 1;
    }
    proof {
        assert(data@.take(i as int) =~= data@);
    }
    c ^ 0xFFFF_FFFF
}

} // verus!
