//! Byte-level codec of the values the lanes and the relay exchange with a
//! chain: nonces, payloads, header identifiers and per-message weight
//! tables. Fixed-width values are specified exactly (little-endian);
//! the length-prefixed weight table is decoded by the outside codec and
//! validated by verified code.

use vstd::prelude::*;
use crate::types::{LaneId, MessageNonce, TestPayload};

verus! {

/// The eight little-endian bytes of a 64-bit value.
pub open spec fn u64_le_bytes(x: u64) -> Seq<u8> {
    seq![
        (x & 0xff) as u8,
        ((x >> 8) & 0xff) as u8,
        ((x >> 16) & 0xff) as u8,
        ((x >> 24) & 0xff) as u8,
        ((x >> 32) & 0xff) as u8,
        ((x >> 40) & 0xff) as u8,
        ((x >> 48) & 0xff) as u8,
        ((x >> 56) & 0xff) as u8,
    ]
}

/// The four little-endian bytes of a 32-bit value.
pub open spec fn u32_le_bytes(x: u32) -> Seq<u8> {
    seq![
        (x & 0xff) as u8,
        ((x >> 8) & 0xff) as u8,
        ((x >> 16) & 0xff) as u8,
        ((x >> 24) & 0xff) as u8,
    ]
}

/// The 64-bit value read from eight little-endian bytes.
pub open spec fn le_to_u64(b: Seq<u8>) -> u64
    recommends
        b.len() == 8,
{
    (b[0] as u64) | ((b[1] as u64) << 8) | ((b[2] as u64) << 16) | ((b[3] as u64) << 24)
        | ((b[4] as u64) << 32) | ((b[5] as u64) << 40) | ((b[6] as u64) << 48)
        | ((b[7] as u64) << 56)
}

/// Encoded form of an application payload: both halves, little-endian.
pub open spec fn payload_bytes(p: TestPayload) -> Seq<u8> {
    u64_le_bytes(p.0) + u64_le_bytes(p.1)
}

/// What the outside codec reads a length-prefixed `(nonce, weight)` table
/// as; a function of the bytes alone.
pub uninterp spec fn scale_weights(b: Seq<u8>) -> Option<Seq<(MessageNonce, u64)>>;

/// Relies on parity_scale_codec::Encode for u64: a 64-bit value encodes as
/// its eight bytes, little-endian.
#[verifier::external_body]
pub(crate) fn encode_nonce(x: u64) -> (r: Vec<u8>)
    ensures
        r@ == u64_le_bytes(x),
{
    parity_scale_codec::Encode::encode(&x)
}

/// Relies on parity_scale_codec::Encode for u32: a 32-bit value encodes as
/// its four bytes, little-endian.
#[verifier::external_body]
pub(crate) fn encode_lane(x: u32) -> (r: Vec<u8>)
    ensures
        r@ == u32_le_bytes(x),
{
    parity_scale_codec::Encode::encode(&x)
}

/// Relies on parity_scale_codec::Decode for u64: reads exactly eight
/// little-endian bytes, fails on shorter input, ignores trailing bytes.
#[verifier::external_body]
pub(crate) fn decode_nonce_bytes(b: &Vec<u8>) -> (r: Option<u64>)
    ensures
        b@.len() >= 8 ==> r == Some(le_to_u64(b@.subrange(0, 8))),
        b@.len() < 8 ==> r is None,
{
    let decoded: Result<u64, _> = parity_scale_codec::Decode::decode(&mut &b[..]);
    decoded.ok()
}

/// Relies on parity_scale_codec::Decode for (u64, u64): a tuple decodes
/// field by field, here two eight-byte little-endian values.
#[verifier::external_body]
pub(crate) fn decode_payload_pair(b: &Vec<u8>) -> (r: Option<(u64, u64)>)
    ensures
        b@.len() >= 16 ==> r == Some(
            (le_to_u64(b@.subrange(0, 8)), le_to_u64(b@.subrange(8, 16))),
        ),
        b@.len() < 16 ==> r is None,
{
    let decoded: Result<(u64, u64), _> = parity_scale_codec::Decode::decode(&mut &b[..]);
    decoded.ok()
}

/// Relies on parity_scale_codec::Decode for (u64, [u8; 32]): an eight-byte
/// little-endian number followed by 32 raw hash bytes.
#[verifier::external_body]
pub(crate) fn decode_header_id_fields(b: &Vec<u8>) -> (r: Option<(u64, Vec<u8>)>)
    ensures
        r matches Some(p) ==> b@.len() >= 40 && p.0 == le_to_u64(b@.subrange(0, 8)),
        r matches Some(p) ==> p.1@ == b@.subrange(8, 40),
        r is None ==> b@.len() < 40,
{
    let decoded: Result<(u64, [u8; 32]), _> = parity_scale_codec::Decode::decode(&mut &b[..]);
    decoded.ok().map(|p| (p.0, p.1.to_vec()))
}

/// Relies on parity_scale_codec::Decode for Vec<(u64, u64)>: a compact
/// length prefix followed by that many tuples; the result is a function of
/// the bytes alone, named `scale_weights`.
#[verifier::external_body]
pub(crate) fn decode_nonce_weights(b: &Vec<u8>) -> (r: Option<Vec<(u64, u64)>>)
    ensures
        r matches Some(v) ==> scale_weights(b@) == Some(v@),
        r is None ==> scale_weights(b@) is None,
{
    let decoded: Result<Vec<(u64, u64)>, _> = parity_scale_codec::Decode::decode(&mut &b[..]);
    decoded.ok()
}

/// Encodes an application payload for storage in the outbound lane.
pub fn encode_payload(p: &TestPayload) -> (r: Vec<u8>)
    ensures
        r@ == payload_bytes(*p),
{
    let mut r = encode_nonce(p.0);
    let mut tail = encode_nonce(p.1);
    r.append(&mut tail);
    r
}

/// Decodes a stored payload back into application form.
pub fn decode_payload(b: &Vec<u8>) -> (r: Result<TestPayload, ()>)
    ensures
        b@.len() >= 16 ==> r == Ok::<TestPayload, ()>(
            (le_to_u64(b@.subrange(0, 8)), le_to_u64(b@.subrange(8, 16))),
        ),
        b@.len() < 16 ==> r == Err::<TestPayload, ()>(()),
{
    match decode_payload_pair(b) {
        Some(p) => Ok(p),
        None => Err(()),
    }
}

/// Argument bytes of a lane-scoped state query: the encoded lane id.
pub fn encode_lane_query(lane: LaneId) -> (r: Vec<u8>)
    ensures
        r@ == u32_le_bytes(lane),
{
    encode_lane(lane)
}

/// Argument bytes of a dispatch-weight range query: lane id and the
/// inclusive nonce range, concatenated as the chain's runtime expects.
pub fn encode_weights_query(lane: LaneId, begin: MessageNonce, end: MessageNonce) -> (r: Vec<
    u8,
>)
    ensures
        r@ == u32_le_bytes(lane) + u64_le_bytes(begin) + u64_le_bytes(end),
{
    let mut r = encode_lane(lane);
    let mut b = encode_nonce(begin);
    let mut e = encode_nonce(end);
    r.append(&mut b);
    r.append(&mut e);
    r
}

/// A value written little-endian reads back as itself.
pub proof fn lemma_payload_roundtrip(p: TestPayload)
    ensures
        payload_bytes(p).len() == 16,
        le_to_u64(payload_bytes(p).subrange(0, 8)) == p.0,
        le_to_u64(payload_bytes(p).subrange(8, 16)) == p.1,
{
    assert(payload_bytes(p).subrange(0, 8) =~= u64_le_bytes(p.0));
    assert(payload_bytes(p).subrange(8, 16) =~= u64_le_bytes(p.1));
    lemma_le_roundtrip(p.0);
    lemma_le_roundtrip(p.1);
}

/// Eight little-endian bytes of a value decode to that value.
pub proof fn lemma_le_roundtrip(x: u64)
    ensures
        le_to_u64(u64_le_bytes(x)) == x,
{
    assert(((x & 0xff) as u8 as u64) | ((((x >> 8) & 0xff) as u8 as u64) << 8)
        | ((((x >> 16) & 0xff) as u8 as u64) << 16) | ((((x >> 24) & 0xff) as u8 as u64) << 24)
        | ((((x >> 32) & 0xff) as u8 as u64) << 32) | ((((x >> 40) & 0xff) as u8 as u64) << 40)
        | ((((x >> 48) & 0xff) as u8 as u64) << 48) | ((((x >> 56) & 0xff) as u8 as u64) << 56)
        == x) by (bit_vector);
}

} // verus!
