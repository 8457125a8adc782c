//! Payload bytes: how they are read off the resolved data pixels, and their
//! checksum.

use vstd::prelude::*;
use crate::error::DecodeError;
use crate::pixel::Pixel;

verus! {

/// Channel `c` of a pixel as a payload byte: 0 is red, 1 green, 2 blue.
pub open spec fn channel(pixel: Pixel, c: int) -> u8 {
    if c == 0 {
        pixel.r
    } else if c == 1 {
        pixel.g
    } else {
        pixel.b
    }
}

/// The first `size` bytes that the pixels carry, three to a pixel in the order
/// red, green, blue; all of their bytes where they carry fewer.
pub open spec fn payload_bytes(pixels: Seq<Pixel>, size: int) -> Seq<u8> {
    let carried = 3 * (pixels.len() as int);
    let kept = if size < carried {
        size
    } else {
        carried
    };
    Seq::new(kept as nat, |i: int| channel(pixels[i / 3], i % 3))
}

/// The sum of the bytes.
pub open spec fn byte_sum(bytes: Seq<u8>) -> nat
    decreases bytes.len(),
{
    if bytes.len() == 0 {
        0
    } else {
        byte_sum(bytes.drop_last()) + bytes.last() as nat
    }
}

/// The additive checksum of the bytes: their sum modulo 256.
pub open spec fn checksum_of(bytes: Seq<u8>) -> int {
    (byte_sum(bytes) % 256) as int
}

/// Lays the red, green and blue channels of the pixels out as bytes and cuts
/// the result down to `size` bytes, dropping the padding of the last pixel.
pub fn assemble_payload(pixels: &Vec<Pixel>, size: u8) -> (bytes: Vec<u8>)
    ensures
        bytes@ == payload_bytes(pixels@, size as int),
{
    let mut bytes: Vec<u8> = Vec::new();
    let mut k: usize = 0;
    while k < pixels.len()
        invariant
            k <= pixels.len(),
            bytes@.len() == 3 * k,
            forall|i: int| 0 <= i < 3 * k ==> bytes@[i] == channel(pixels@[i / 3], i % 3),
        decreases pixels.len() - k,
    {
        let p = pixels[k];
        bytes.push(p.r);
        bytes.push(p.g);
        bytes.push(p.b);
        k = k + 1;
    }
    bytes.truncate(size as usize);
    assert(bytes@ =~= payload_bytes(pixels@, size as int));
    bytes
}

/// The additive checksum of a payload.
pub fn checksum(bytes: &Vec<u8>) -> (sum: u8)
    ensures
        sum == checksum_of(bytes@),
{
    let mut sum: u32 = 0;
    let mut k: usize = 0;
    while k < bytes.len()
        invariant
            k <= bytes.len(),
            sum == byte_sum(bytes@.take(k as int)) % 256,
        decreases bytes.len() - k,
    {
        proof {
            assert(bytes@.take(k + 1).drop_last() =~= bytes@.take(k as int));
        }
        sum = (sum + bytes[k] as u32) % 256;
        k = k + 1;
    }
    proof {
        assert(bytes@.take(k as int) =~= bytes@);
    }
    sum as u8
}

/// Accepts a payload whose checksum is `expected` and no other.
pub fn validate_checksum(bytes: &Vec<u8>, expected: u8) -> (verdict: Result<(), DecodeError>)
    ensures
        verdict is Ok <==> expected == checksum_of(bytes@),
        verdict is Err ==> verdict == Err::<(), DecodeError>(DecodeError::ChecksumMismatch),
{
    if checksum(bytes) == expected {
        Ok(())
    } else {
        Err(DecodeError::ChecksumMismatch)
    }
}

} // verus!
