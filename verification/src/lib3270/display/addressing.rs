//! 3270 buffer address encoding: 12-bit addresses carried as two six-bit
//! code bytes, and 14-bit addresses carried as two binary bytes.

use vstd::prelude::*;

verus! {

/// The six-bit value carried by an address code byte (zero for bytes that
/// are not address codes).
pub open spec fn spec_decode_address_byte(byte: u8) -> u8 {
    if 0x40 <= byte <= 0x4F {
        (byte - 0x40) as u8
    } else if 0x50 <= byte <= 0x5F {
        (byte - 0x50 + 16) as u8
    } else if 0x60 <= byte <= 0x6F {
        (byte - 0x60 + 32) as u8
    } else if 0x70 <= byte <= 0x7F {
        (byte - 0x70 + 48) as u8
    } else if 0xC0 <= byte <= 0xCF {
        (byte - 0xC0) as u8
    } else if 0xD0 <= byte <= 0xDF {
        (byte - 0xD0 + 16) as u8
    } else if 0xE0 <= byte <= 0xEF {
        (byte - 0xE0 + 32) as u8
    } else if 0xF0 <= byte {
        (byte - 0xF0 + 48) as u8
    } else {
        0
    }
}

/// The address code byte for a six-bit value.
pub open spec fn spec_encode_address_byte(value: u8) -> u8 {
    if value <= 15 {
        (0x40 + value) as u8
    } else if value <= 31 {
        (0x50 + (value - 16)) as u8
    } else if value <= 47 {
        (0x60 + (value - 32)) as u8
    } else {
        (0x70 + (value - 48)) as u8
    }
}

/// Decode a 12-bit buffer address from two code bytes.
pub fn decode_12bit_address(byte1: u8, byte2: u8) -> (r: u16)
    ensures
        r == spec_decode_address_byte(byte1) * 64 + spec_decode_address_byte(byte2),
{
    let high = decode_address_byte(byte1) as u16;
    let low = decode_address_byte(byte2) as u16;
    assert((high << 6u16) | low == high * 64 + low) by (bit_vector)
        requires
            high < 64,
            low < 64,
    ;
    (high << 6) | low
}

/// Decode a 14-bit buffer address from two binary bytes.
pub fn decode_14bit_address(byte1: u8, byte2: u8) -> (r: u16)
    ensures
        r == (byte1 % 64) as int * 256 + byte2,
{
    let high = ((byte1 & 0x3F) as u16) << 8;
    let low = byte2 as u16;
    assert((((byte1 & 0x3Fu8) as u16) << 8u16) | (byte2 as u16) == (byte1 % 64) as u16 * 256
        + byte2 as u16) by (bit_vector);
    high | low
}

/// Encode a 12-bit buffer address as two code bytes (bits above the
/// twelfth are dropped).
pub fn encode_12bit_address(address: u16) -> (r: (u8, u8))
    ensures
        r == (
            spec_encode_address_byte(((address / 64) % 64) as u8),
            spec_encode_address_byte((address % 64) as u8),
        ),
{
    let high = ((address >> 6) & 0x3F) as u8;
    let low = (address & 0x3F) as u8;
    assert(((address >> 6u16) & 0x3Fu16) == (address / 64) % 64) by (bit_vector);
    assert((address & 0x3Fu16) == address % 64) by (bit_vector);
    (encode_address_byte(high), encode_address_byte(low))
}

/// Encode a 14-bit buffer address as two binary bytes (bits above the
/// fourteenth are dropped).
pub fn encode_14bit_address(address: u16) -> (r: (u8, u8))
    ensures
        r == (((address / 256) % 64) as u8, (address % 256) as u8),
{
    let high = ((address >> 8) & 0x3F) as u8;
    let low = (address & 0xFF) as u8;
    assert(((address >> 8u16) & 0x3Fu16) == (address / 256) % 64) by (bit_vector);
    assert((address & 0xFFu16) == address % 256) by (bit_vector);
    (high, low)
}

/// Decode one address code byte.
fn decode_address_byte(byte: u8) -> (r: u8)
    ensures
        r == spec_decode_address_byte(byte),
        r < 64,
{
    if byte >= 0x40 && byte <= 0x4F {
        byte - 0x40
    } else if byte >= 0x50 && byte <= 0x5F {
        byte - 0x50 + 16
    } else if byte >= 0x60 && byte <= 0x6F {
        byte - 0x60 + 32
    } else if byte >= 0x70 && byte <= 0x7F {
        byte - 0x70 + 48
    } else if byte >= 0xC0 && byte <= 0xCF {
        byte - 0xC0
    } else if byte >= 0xD0 && byte <= 0xDF {
        byte - 0xD0 + 16
    } else if byte >= 0xE0 && byte <= 0xEF {
        byte - 0xE0 + 32
    } else if byte >= 0xF0 {
        byte - 0xF0 + 48
    } else {
        0
    }
}

/// Encode a six-bit value as an address code byte.
fn encode_address_byte(value: u8) -> (r: u8)
    requires
        value < 64,
    ensures
        r == spec_encode_address_byte(value),
{
    if value <= 15 {
        0x40 + value
    } else if value <= 31 {
        0x50 + (value - 16)
    } else if value <= 47 {
        0x60 + (value - 32)
    } else {
        0x70 + (value - 48)
    }
}

/// Decoding the code byte of a six-bit value gives the value back.
pub proof fn lemma_address_byte_roundtrip(value: u8)
    requires
        value < 64,
    ensures
        spec_decode_address_byte(spec_encode_address_byte(value)) == value,
{
}

/// A 12-bit address survives encoding and decoding: for every address below
/// 4096, decoding the two bytes that encoding gives returns the address.
pub proof fn lemma_12bit_roundtrip(address: u16)
    requires
        address < 4096,
    ensures
        ({
            let b1 = spec_encode_address_byte(((address / 64) % 64) as u8);
            let b2 = spec_encode_address_byte((address % 64) as u8);
            spec_decode_address_byte(b1) * 64 + spec_decode_address_byte(b2) == address
        }),
{
    lemma_address_byte_roundtrip(((address / 64) % 64) as u8);
    lemma_address_byte_roundtrip((address % 64) as u8);
}

/// A 14-bit address survives encoding and decoding: for every address below
/// 16384, decoding the two bytes that encoding gives returns the address.
pub proof fn lemma_14bit_roundtrip(address: u16)
    requires
        address < 16384,
    ensures
        ((((address / 256) % 64) as u8) % 64) as int * 256 + ((address % 256) as u8) == address,
{
}

/// An address code byte carries its low six bits: every byte of the code
/// table (0x40 to 0x7F, and the alternate codes 0xC0 to 0xFF) decodes to
/// its value modulo 64; a byte outside the table carries nothing (0).
pub proof fn lemma_address_byte_carries_low_bits(byte: u8)
    ensures
        (0x40 <= byte <= 0x7F || 0xC0 <= byte) ==> spec_decode_address_byte(byte) == byte % 64,
        (byte < 0x40 || 0x80 <= byte < 0xC0) ==> spec_decode_address_byte(byte) == 0,
{
}

/// A 12-bit address read from two code bytes is the first byte's six bits
/// followed by the second's: with both bytes in the code table, the
/// address is `(byte1 % 64) * 64 + byte2 % 64`, whichever of a value's two
/// codes is used.
pub proof fn lemma_12bit_from_code_bytes(byte1: u8, byte2: u8)
    requires
        0x40 <= byte1 <= 0x7F || 0xC0 <= byte1,
        0x40 <= byte2 <= 0x7F || 0xC0 <= byte2,
    ensures
        spec_decode_address_byte(byte1) * 64 + spec_decode_address_byte(byte2) == (byte1 % 64) as int * 64 + (byte2 % 64) as int,
        spec_decode_address_byte(byte1) == spec_decode_address_byte((byte1 ^ 0x80u8) as u8),
{
    lemma_address_byte_carries_low_bits(byte1);
    lemma_address_byte_carries_low_bits(byte2);
    let b = (byte1 ^ 0x80u8) as u8;
    assert((0x40 <= byte1 <= 0x7F || 0xC0 <= byte1) ==> ((0x40 <= b <= 0x7F || 0xC0 <= b) && b % 64 == byte1 % 64)) by (bit_vector)
        requires b == byte1 ^ 0x80u8;
    lemma_address_byte_carries_low_bits(b);
}

} // verus!
