//! Pixels, their 24-bit colour value, and the frame header packed into one.

use vstd::prelude::*;

verus! {

/// One RGBA pixel of a captured strip.
#[derive(Clone, Copy, Debug, PartialEq, Eq, Structural, Hash)]
pub struct Pixel {
    pub r: u8,
    pub g: u8,
    pub b: u8,
    pub a: u8,
}

/// The three fields that the header pixel carries.
#[derive(Clone, Copy, Debug, PartialEq, Eq, Structural)]
pub struct FrameHeader {
    /// Length of the payload in bytes.
    pub size: u8,
    /// Sum of the payload bytes modulo 256.
    pub checksum: u8,
    /// Counter that the encoder advances with every new frame.
    pub sequence: u8,
}

/// The 24-bit colour of a pixel: red in bits 23..16, green in bits 15..8,
/// blue in bits 7..0. Alpha takes no part.
pub open spec fn color_value(pixel: Pixel) -> int {
    pixel.r as int * 65536 + pixel.g as int * 256 + pixel.b as int
}

/// The header fields of a 32-bit colour value: bits 23..16, 15..8 and 7..0.
/// Bits above 23 are ignored.
pub open spec fn header_fields(header: int) -> (int, int, int) {
    ((header / 65536) % 256, (header / 256) % 256, header % 256)
}

/// The header that a pixel encodes.
pub open spec fn header_of_pixel(pixel: Pixel) -> FrameHeader {
    FrameHeader { size: pixel.r, checksum: pixel.g, sequence: pixel.b }
}

pub fn color_to_integer(pixel: &Pixel) -> (value: u32)
    ensures
        value as int == color_value(*pixel),
        value < 0x100_0000,
{
    let r: u32 = pixel.r as u32;
    let g: u32 = pixel.g as u32;
    let b: u32 = pixel.b as u32;
    r * 256 * 256 + g * 256 + b
}

pub fn decode_header(header: u32) -> (fields: (u8, u8, u8))
    ensures
        (fields.0 as int, fields.1 as int, fields.2 as int) == header_fields(header as int),
{
    let high: u32 = (header >> 16) & 0xff;
    let mid: u32 = (header >> 8) & 0xff;
    let low: u32 = header & 0xff;
    assert(high == (header / 65536) % 256 && mid == (header / 256) % 256 && low == header % 256
        && high < 256 && mid < 256 && low < 256) by (bit_vector)
        requires
            high == (header >> 16) & 0xff,
            mid == (header >> 8) & 0xff,
            low == header & 0xff,
    ;
    (high as u8, mid as u8, low as u8)
}

/// Reads a pixel as a frame header.
pub fn header_from_pixel(pixel: &Pixel) -> (header: FrameHeader)
    ensures
        header == header_of_pixel(*pixel),
{
    let (size, checksum, sequence) = decode_header(color_to_integer(pixel));
    proof {
        lemma_header_fields_of_color(*pixel);
    }
    FrameHeader { size, checksum, sequence }
}

/// Packing a pixel into its colour value and unpacking that value gives back
/// the red, green and blue channels.
pub proof fn lemma_header_fields_of_color(pixel: Pixel)
    ensures
        header_fields(color_value(pixel)) == (pixel.r as int, pixel.g as int, pixel.b as int),
{
    let r = pixel.r as int;
    let g = pixel.g as int;
    let b = pixel.b as int;
    let v = color_value(pixel);
    assert(v / 256 == r * 256 + g);
    assert(v / 65536 == r);
    assert(v % 256 == b);
    assert((r * 256 + g) % 256 == g);
    assert(r % 256 == r);
}

} // verus!
