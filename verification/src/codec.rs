//! Little-endian encoding of 32-bit integers, as used on the wire.

use vstd::prelude::*;

verus! {

/// The integer that four little-endian bytes denote.
pub open spec fn le_u32_value(b: Seq<u8>) -> int {
    b[0] + 256 * b[1] + 65536 * b[2] + 16777216 * b[3]
}

/// The four little-endian bytes of a 32-bit value.
pub open spec fn le_u32_bytes(v: u32) -> Seq<u8> {
    seq![
        (v % 256) as u8,
        ((v / 256) % 256) as u8,
        ((v / 65536) % 256) as u8,
        ((v / 16777216) % 256) as u8,
    ]
}

/// Decoding the encoding of a value gives the value back.
pub proof fn lemma_le_u32_decode_encode(v: u32)
    ensures
        le_u32_bytes(v).len() == 4,
        le_u32_value(le_u32_bytes(v)) == v,
{
    let b = le_u32_bytes(v);
    assert(b[0] == v % 256);
    assert(b[1] == (v / 256) % 256);
    assert(b[2] == (v / 65536) % 256);
    assert(b[3] == (v / 16777216) % 256);
    assert((v % 256) + 256 * ((v / 256) % 256) + 65536 * ((v / 65536) % 256) + 16777216 * (
    (v / 16777216) % 256) == v) by (nonlinear_arith);
}

/// Encoding the value of four bytes gives the bytes back.
pub proof fn lemma_le_u32_encode_decode(b: Seq<u8>)
    requires
        b.len() == 4,
    ensures
        0 <= le_u32_value(b) <= u32::MAX,
        le_u32_bytes(le_u32_value(b) as u32) == b,
{
    let (b0, b1, b2, b3) = (b[0] as int, b[1] as int, b[2] as int, b[3] as int);
    let v = b0 + 256 * b1 + 65536 * b2 + 16777216 * b3;
    assert(0 <= v <= u32::MAX);
    assert(v % 256 == b0 && (v / 256) % 256 == b1 && (v / 65536) % 256 == b2 && (v / 16777216)
        % 256 == b3) by (nonlinear_arith)
        requires
            0 <= b0 < 256,
            0 <= b1 < 256,
            0 <= b2 < 256,
            0 <= b3 < 256,
            v == b0 + 256 * b1 + 65536 * b2 + 16777216 * b3,
    ;
    assert(le_u32_bytes(v as u32) =~= b);
}

/// Two values with equal encodings are equal.
pub proof fn lemma_le_u32_bytes_injective(v: u32, w: u32)
    requires
        le_u32_bytes(v) == le_u32_bytes(w),
    ensures
        v == w,
{
    lemma_le_u32_decode_encode(v);
    lemma_le_u32_decode_encode(w);
}

/// The encoding puts the lowest byte first, as `u32::to_le_bytes` does:
/// byte `k` holds bits `8k` to `8k + 7` of the value.
pub proof fn lemma_le_u32_bytes_low_byte_first(v: u32)
    ensures
        le_u32_bytes(v).len() == 4,
        le_u32_bytes(v)[0] == (v & 0xff) as u8,
        le_u32_bytes(v)[1] == ((v >> 8u32) & 0xff) as u8,
        le_u32_bytes(v)[2] == ((v >> 16u32) & 0xff) as u8,
        le_u32_bytes(v)[3] == ((v >> 24u32) & 0xff) as u8,
{
    assert((v % 256) as u8 == (v & 0xff) as u8) by (bit_vector);
    assert(((v / 256) % 256) as u8 == ((v >> 8u32) & 0xff) as u8) by (bit_vector);
    assert(((v / 65536) % 256) as u8 == ((v >> 16u32) & 0xff) as u8) by (bit_vector);
    assert(((v / 16777216) % 256) as u8 == ((v >> 24u32) & 0xff) as u8) by (bit_vector);
}

/// Four bytes read back put the first byte lowest, as `u32::from_le_bytes`
/// does: byte `k` gives bits `8k` to `8k + 7` of the value.
pub proof fn lemma_le_u32_value_low_byte_first(b: Seq<u8>)
    requires
        b.len() == 4,
    ensures
        le_u32_value(b) == ((b[0] as u32) | ((b[1] as u32) << 8u32) | ((b[2] as u32) << 16u32) | ((
        b[3] as u32) << 24u32)) as int,
{
    let b0 = b[0];
    let b1 = b[1];
    let b2 = b[2];
    let b3 = b[3];
    assert(b0 as int + 256 * (b1 as int) + 65536 * (b2 as int) + 16777216 * (b3 as int) == ((b0 as u32)
        | ((b1 as u32) << 8u32) | ((b2 as u32) << 16u32) | ((b3 as u32) << 24u32)) as int) by (bit_vector);
}

/// The little-endian bytes of `v`.
pub fn u32_to_le_bytes(v: u32) -> (r: [u8; 4])
    ensures
        r@ == le_u32_bytes(v),
{
    let r = [(v % 256) as u8, ((v / 256) % 256) as u8, ((v / 65536) % 256) as u8, ((v / 16777216)
        % 256) as u8];
    assert(r@ =~= le_u32_bytes(v));
    r
}

/// The value of the first four bytes of `b`, read little-endian.
pub fn u32_from_le_bytes(b: &[u8]) -> (r: u32)
    requires
        b@.len() >= 4,
    ensures
        r == le_u32_value(b@.take(4)),
{
    proof {
        lemma_le_u32_encode_decode(b@.take(4));
    }
    let v: u32 = (b[0] as u32) + 256 * (b[1] as u32) + 65536 * (b[2] as u32) + 16777216 * (
    b[3] as u32);
    v
}

} // verus!
