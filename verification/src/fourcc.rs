//! Four-character codes: SMC keys and data types are four ASCII bytes read
//! as a big-endian `u32`.

use vstd::prelude::*;

verus! {

/// The big-endian `u32` made of the bytes `b`.
pub open spec fn be32(b: Seq<u8>) -> u32 {
    ((b[0] as u32) << 24u32) | ((b[1] as u32) << 16u32) | ((b[2] as u32) << 8u32) | (b[3] as u32)
}

/// The first (most significant) byte of a four-character code.
pub open spec fn code_byte0(code: u32) -> u8 {
    (code >> 24u32) as u8
}

/// The second byte of a four-character code.
pub open spec fn code_byte1(code: u32) -> u8 {
    ((code >> 16u32) & 0xff) as u8
}

/// `u32::from_be_bytes` on the four bytes of a code.
pub fn fourcc(b: [u8; 4]) -> (code: u32)
    ensures
        code == be32(b@),
{
    ((b[0] as u32) << 24u32) | ((b[1] as u32) << 16u32) | ((b[2] as u32) << 8u32) | (b[3] as u32)
}

/// The bytes of a code, most significant first (`u32::to_be_bytes`).
pub fn code_bytes(code: u32) -> (b: [u8; 4])
    ensures
        be32(b@) == code,
        b@[0] == code_byte0(code),
        b@[1] == code_byte1(code),
{
    let b = [(code >> 24u32) as u8, ((code >> 16u32) & 0xff) as u8, ((code >> 8u32) & 0xff) as u8, (code
        & 0xff) as u8];
    let b0 = b[0];
    let b1 = b[1];
    let b2 = b[2];
    let b3 = b[3];
    assert(((b0 as u32) << 24u32) | ((b1 as u32) << 16u32) | ((b2 as u32) << 8u32) | (b3 as u32)
        == code) by (bit_vector)
        requires
            b0 == (code >> 24u32) as u8,
            b1 == ((code >> 16u32) & 0xff) as u8,
            b2 == ((code >> 8u32) & 0xff) as u8,
            b3 == (code & 0xff) as u8,
    ;
    b
}

/// The key whose value is the number of keys the SMC holds: `#KEY`.
pub const KEY_COUNT_KEY: u32 = 0x234B_4559;

/// Data type of a signed 7.8 fixed-point value, big-endian: `sp78`.
pub const TYPE_SP78: u32 = 0x7370_3738;

/// Data type of a little-endian IEEE-754 single: `flt `.
pub const TYPE_FLT: u32 = 0x666C_7420;

/// The named codes are the four-character strings they stand for.
pub proof fn lemma_named_codes()
    ensures
        KEY_COUNT_KEY == be32(seq![0x23u8, 0x4Bu8, 0x45u8, 0x59u8]),
        TYPE_SP78 == be32(seq![0x73u8, 0x70u8, 0x37u8, 0x38u8]),
        TYPE_FLT == be32(seq![0x66u8, 0x6Cu8, 0x74u8, 0x20u8]),
{
    assert(KEY_COUNT_KEY == ((0x23u8 as u32) << 24u32) | ((0x4Bu8 as u32) << 16u32) | ((0x45u8 as u32)
        << 8u32) | (0x59u8 as u32)) by (bit_vector);
    assert(TYPE_SP78 == ((0x73u8 as u32) << 24u32) | ((0x70u8 as u32) << 16u32) | ((0x37u8 as u32)
        << 8u32) | (0x38u8 as u32)) by (bit_vector);
    assert(TYPE_FLT == ((0x66u8 as u32) << 24u32) | ((0x6Cu8 as u32) << 16u32) | ((0x74u8 as u32)
        << 8u32) | (0x20u8 as u32)) by (bit_vector);
}


/// Law: a four-character code is its bytes read as a base-256 number, most
/// significant first.
pub proof fn lemma_be32_value(a: u8, b: u8, c: u8, d: u8)
    ensures
        be32(seq![a, b, c, d]) as int == a * 0x100_0000 + b * 0x1_0000 + c * 0x100 + d,
{
    let v = be32(seq![a, b, c, d]);
    assert(v as int == a * 0x100_0000 + b * 0x1_0000 + c * 0x100 + d) by (bit_vector)
        requires
            v == ((a as u32) << 24u32) | ((b as u32) << 16u32) | ((c as u32) << 8u32) | (d as u32),
    ;
}

} // verus!
