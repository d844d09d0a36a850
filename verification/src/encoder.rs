//! Encoding of 64-bit addresses into model input rows and decoding of raw
//! model outputs back into bytes.
//!
//! An address is encoded as 64 feature slots, one per bit, least-significant
//! first, each slot holding 0 or 1. The encoding is a bijection: decoding an
//! encoded address recovers it exactly. A raw model output is decoded into a
//! byte by clamping it to the `[0, 255]` range.

use vstd::prelude::*;

verus! {

/// Bit `i` of address `a`, least-significant first: the value of one
/// feature slot of the encoded address.
pub open spec fn address_bit(a: u64, i: int) -> u8 {
    ((a >> (i as u64)) & 1) as u8
}

/// The encoded form of address `a`: 64 slots, slot `i` holding bit `i`.
pub open spec fn encode_spec(a: u64) -> Seq<u8> {
    Seq::new(64, |i: int| address_bit(a, i))
}

/// The address whose bits `0 .. n` are read back from `bits`, all higher
/// bits zero.
pub open spec fn decode_prefix(bits: Seq<u8>, n: int) -> u64
    decreases n,
{
    if n <= 0 {
        0u64
    } else {
        decode_prefix(bits, n - 1) | (((bits[n - 1] as u64) << ((n - 1) as u64)) as u64)
    }
}

/// The address read back from a full row of 64 feature slots.
pub open spec fn decode_spec(bits: Seq<u8>) -> u64 {
    decode_prefix(bits, 64)
}

/// The mask that keeps the low `n` bits of a 64-bit value.
pub open spec fn low_mask(n: int) -> u64 {
    if n <= 0 {
        0u64
    } else if n >= 64 {
        0xFFFF_FFFF_FFFF_FFFFu64
    } else {
        (((1u64 << (n as u64)) - 1) as u64)
    }
}

/// Reading back the low `n` bits of an encoded address recovers the address
/// masked to those bits.
proof fn lemma_decode_prefix_of_encode(a: u64, n: int)
    requires
        0 <= n <= 64,
    ensures
        decode_prefix(encode_spec(a), n) == (a & low_mask(n)),
    decreases n,
{
    if n == 0 {
        assert(a & 0u64 == 0u64) by (bit_vector);
    } else {
        lemma_decode_prefix_of_encode(a, n - 1);
        let k = (n - 1) as u64;
        assert(encode_spec(a)[n - 1] == ((a >> k) & 1) as u8);
        if n < 64 {
            assert((a & (if k == 0 {
                0u64
            } else {
                (((1u64 << k) - 1) as u64)
            })) | ((((((a >> k) & 1) as u8) as u64) << k) as u64) == (a & (((1u64 << ((k + 1)
                as u64)) - 1) as u64))) by (bit_vector)
                requires
                    k < 63u64,
            ;
        } else {
            assert((a & (((1u64 << 63u64) - 1) as u64)) | ((((((a >> 63u64) & 1) as u8)
                as u64) << 63u64) as u64) == (a & 0xFFFF_FFFF_FFFF_FFFFu64)) by (bit_vector);
        }
    }
}

/// Encoding round-trip: decoding the encoded form of any address recovers
/// the address exactly.
pub proof fn lemma_encode_decode_roundtrip(a: u64)
    ensures
        decode_spec(encode_spec(a)) == a,
{
    lemma_decode_prefix_of_encode(a, 64);
    assert(a & 0xFFFF_FFFF_FFFF_FFFFu64 == a) by (bit_vector);
}

/// Encode an address into its 64 feature slots, least-significant bit first.
pub fn encode_address(a: u64) -> (r: Vec<u8>)
    ensures
        r@ == encode_spec(a),
{
    let mut bits: Vec<u8> = Vec::new();
    let mut i: usize = 0;
    while i < 64
        invariant
            i <= 64,
            bits@.len() == i,
            forall|j: int| 0 <= j < i ==> bits@[j] == address_bit(a, j),
        decreases 64 - i,
    {
        bits.push(((a >> (i as u64)) & 1) as u8);
        i = i + 1;
    }
    proof {
        assert(bits@ =~= encode_spec(a));
    }
    bits
}

/// Decode a row of 64 feature slots back into the address it encodes.
pub fn decode_address(bits: &Vec<u8>) -> (r: u64)
    requires
        bits@.len() == 64,
    ensures
        r == decode_spec(bits@),
{
    let mut acc: u64 = 0;
    let mut i: usize = 0;
    while i < 64
        invariant
            i <= 64,
            bits@.len() == 64,
            acc == decode_prefix(bits@, i as int),
        decreases 64 - i,
    {
        acc = acc | ((bits[i] as u64) << (i as u64));
        i = i + 1;
    }
    acc
}

/// A raw model output clamped into the byte range: negative outputs give 0,
/// outputs above 255 give 255.
pub open spec fn clamp_prediction(raw: i64) -> u8 {
    if raw < 0 {
        0u8
    } else if raw > 255 {
        255u8
    } else {
        raw as u8
    }
}

/// Decode one raw model output into a stored byte by clamping it to
/// `[0, 255]`.
pub fn decode_prediction(raw: i64) -> (r: u8)
    ensures
        r == clamp_prediction(raw),
{
    if raw < 0 {
        0
    } else if raw > 255 {
        255
    } else {
        raw as u8
    }
}

/// Decode a whole vector of raw model outputs, keeping their order: slot `i`
/// of the result is the clamped form of output `i`.
pub fn decode_predictions(raw: &Vec<i64>) -> (r: Vec<u8>)
    ensures
        r@.len() == raw@.len(),
        forall|i: int| 0 <= i < raw@.len() ==> r@[i] == clamp_prediction(raw@[i]),
{
    let mut out: Vec<u8> = Vec::new();
    let mut i: usize = 0;
    while i < raw.len()
        invariant
            i <= raw@.len(),
            out@.len() == i,
            forall|j: int| 0 <= j < i ==> out@[j] == clamp_prediction(raw@[j]),
        decreases raw@.len() - i,
    {
        out.push(decode_prediction(raw[i]));
        i = i + 1;
    }
    out
}

} // verus!
