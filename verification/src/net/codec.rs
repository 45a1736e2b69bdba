//! Wire codec: one logical packet to and from a framed byte buffer.
//!
//! A frame is `[4-byte magic number, little-endian][2-byte payload length,
//! little-endian][payload]`. The payload is a deterministic binary encoding
//! of one [`NetworkPacket`]: a 4-byte little-endian variant tag, strings as
//! an 8-byte little-endian byte count followed by their UTF-8 bytes, and
//! bools as a single 0 or 1 byte.

use vstd::prelude::*;

use vstd::bytes::{
    lemma_auto_spec_u16_to_from_le_bytes, lemma_auto_spec_u32_to_from_le_bytes,
    lemma_auto_spec_u64_to_from_le_bytes, spec_u16_from_le_bytes, spec_u16_to_le_bytes,
    spec_u32_from_le_bytes, spec_u32_to_le_bytes, spec_u64_from_le_bytes, spec_u64_to_le_bytes,
    u16_from_le_bytes, u16_to_le_bytes, u32_from_le_bytes, u32_to_le_bytes, u64_from_le_bytes,
    u64_to_le_bytes,
};
use vstd::slice::{slice_subrange, slice_to_vec};
use vstd::utf8::{
    decode_utf8, decode_utf8_encode_utf8, encode_utf8, encode_utf8_decode_utf8,
    encode_utf8_valid_utf8, valid_utf8,
};

use super::{NetworkError, NetworkErrorView, NetworkPacket, NetworkPacketView, NET_MAGIC_NUMBER};

verus! {

/// The largest payload a frame can announce: its length field is 16 bits.
pub const MAX_PAYLOAD_LENGTH: usize = 0xFFFF;

/// Returned when a packet is refused rather than encoded.
#[derive(Clone, Copy, Debug, PartialEq, Eq, Structural)]
pub enum EncodeError {
    /// The encoded payload would not fit the 16-bit length field of a frame.
    /// Truncating silently would desynchronize the stream, so the packet is
    /// refused.
    TooLarge,
}

/// Returned when a payload cannot be decoded into a packet.
#[derive(Clone, Copy, Debug, PartialEq, Eq, Structural)]
pub enum DecodeError {
    /// The payload ended before a field announced by the data so far.
    UnexpectedEnd,
    /// The leading packet tag names no known packet variant.
    BadPacketTag,
    /// The error-kind tag names no known error variant.
    BadErrorTag,
    /// A byte standing for a bool was neither 0 nor 1.
    BadBool,
    /// A string field was not valid UTF-8.
    BadUtf8,
    /// Bytes remained after one whole packet was decoded.
    TrailingBytes,
}

/// Encoding of one string field: an 8-byte little-endian byte count, then
/// the UTF-8 bytes themselves.
pub open spec fn spec_string_bytes(s: Seq<char>) -> Seq<u8> {
    spec_u64_to_le_bytes(encode_utf8(s).len() as u64) + encode_utf8(s)
}

/// Encoding of one [`NetworkError`]: a 4-byte little-endian variant tag,
/// then the variant's fields.
pub open spec fn spec_error_bytes(e: NetworkErrorView) -> Seq<u8> {
    match e {
        NetworkErrorView::VersionMismatch(v1, v2) => spec_u32_to_le_bytes(0u32)
            + spec_string_bytes(v1) + spec_string_bytes(v2),
        NetworkErrorView::ShouldCrashBothTrue => spec_u32_to_le_bytes(1u32),
    }
}

/// Encoding of one [`NetworkPacket`] payload: a 4-byte little-endian variant
/// tag, then the variant's fields.
pub open spec fn spec_payload_bytes(p: NetworkPacketView) -> Seq<u8> {
    match p {
        NetworkPacketView::Init { version, should_crash } => spec_u32_to_le_bytes(0u32)
            + spec_string_bytes(version) + seq![if should_crash { 1u8 } else { 0u8 }],
        NetworkPacketView::Error(e) => spec_u32_to_le_bytes(1u32) + spec_error_bytes(e),
    }
}

/// Whether a packet's payload fits the 16-bit length field of a frame.
/// [`seralize_packet`] succeeds on exactly these packets.
pub open spec fn payload_fits(p: NetworkPacketView) -> bool {
    spec_payload_bytes(p).len() <= MAX_PAYLOAD_LENGTH
}

/// Every packet of the list fits a frame.
pub open spec fn all_payloads_fit(ps: Seq<NetworkPacketView>) -> bool {
    forall|i: int| 0 <= i < ps.len() ==> payload_fits(#[trigger] ps[i])
}

/// The whole frame for one packet: magic number, payload length, payload.
pub open spec fn spec_frame_bytes(p: NetworkPacketView) -> Seq<u8>
    recommends
        payload_fits(p),
{
    spec_u32_to_le_bytes(NET_MAGIC_NUMBER)
        + spec_u16_to_le_bytes(spec_payload_bytes(p).len() as u16) + spec_payload_bytes(p)
}

/// What [`get_packet_length`] returns for a 6-byte header: `None` unless the
/// first four bytes are the magic number, else the announced payload length.
pub open spec fn spec_header_length(h: Seq<u8>) -> Option<u16>
    recommends
        h.len() == 6,
{
    if spec_u32_from_le_bytes(h.take(4)) != NET_MAGIC_NUMBER {
        None
    } else {
        Some(spec_u16_from_le_bytes(h.skip(4)))
    }
}

/// Reads one string field from the front of `b`: `Err` on a short buffer or
/// bytes that are not UTF-8, else the string and the remaining bytes.
pub open spec fn spec_take_string(b: Seq<u8>) -> Result<(Seq<char>, Seq<u8>), DecodeError> {
    if b.len() < 8 {
        Err(DecodeError::UnexpectedEnd)
    } else {
        let n = spec_u64_from_le_bytes(b.take(8)) as int;
        if b.len() - 8 < n {
            Err(DecodeError::UnexpectedEnd)
        } else {
            let sb = b.subrange(8, 8 + n);
            if valid_utf8(sb) {
                Ok((decode_utf8(sb), b.skip(8 + n)))
            } else {
                Err(DecodeError::BadUtf8)
            }
        }
    }
}

/// Reads one bool field from the front of `b`: a single byte that must be 0
/// or 1.
pub open spec fn spec_take_bool(b: Seq<u8>) -> Result<(bool, Seq<u8>), DecodeError> {
    if b.len() < 1 {
        Err(DecodeError::UnexpectedEnd)
    } else if b[0] == 0u8 {
        Ok((false, b.skip(1)))
    } else if b[0] == 1u8 {
        Ok((true, b.skip(1)))
    } else {
        Err(DecodeError::BadBool)
    }
}

/// Reads one [`NetworkError`] from the front of `b`.
pub open spec fn spec_take_error(b: Seq<u8>) -> Result<(NetworkErrorView, Seq<u8>), DecodeError> {
    if b.len() < 4 {
        Err(DecodeError::UnexpectedEnd)
    } else {
        let tag = spec_u32_from_le_bytes(b.take(4));
        let rest = b.skip(4);
        if tag == 0u32 {
            match spec_take_string(rest) {
                Ok((v1, r1)) => match spec_take_string(r1) {
                    Ok((v2, r2)) => Ok((NetworkErrorView::VersionMismatch(v1, v2), r2)),
                    Err(e) => Err(e),
                },
                Err(e) => Err(e),
            }
        } else if tag == 1u32 {
            Ok((NetworkErrorView::ShouldCrashBothTrue, rest))
        } else {
            Err(DecodeError::BadErrorTag)
        }
    }
}

/// What [`deserialize_packet`] yields on a payload: the decoded packet, or
/// the exact reason the payload is malformed. The payload must hold exactly
/// one packet; trailing bytes are refused.
pub open spec fn spec_decode_payload(b: Seq<u8>) -> Result<NetworkPacketView, DecodeError> {
    if b.len() < 4 {
        Err(DecodeError::UnexpectedEnd)
    } else {
        let tag = spec_u32_from_le_bytes(b.take(4));
        let rest = b.skip(4);
        if tag == 0u32 {
            match spec_take_string(rest) {
                Ok((version, r1)) => match spec_take_bool(r1) {
                    Ok((should_crash, r2)) => if r2.len() == 0 {
                        Ok(NetworkPacketView::Init { version, should_crash })
                    } else {
                        Err(DecodeError::TrailingBytes)
                    },
                    Err(e) => Err(e),
                },
                Err(e) => Err(e),
            }
        } else if tag == 1u32 {
            match spec_take_error(rest) {
                Ok((e, r1)) => if r1.len() == 0 {
                    Ok(NetworkPacketView::Error(e))
                } else {
                    Err(DecodeError::TrailingBytes)
                },
                Err(e) => Err(e),
            }
        } else {
            Err(DecodeError::BadPacketTag)
        }
    }
}

/// Relates an executable decode result to the mathematical one: same error,
/// or a packet with the decoded value.
pub open spec fn decode_result_matches(
    r: Result<NetworkPacket, DecodeError>,
    s: Result<NetworkPacketView, DecodeError>,
) -> bool {
    match (r, s) {
        (Ok(p), Ok(pv)) => p@ == pv,
        (Err(e1), Err(e2)) => e1 == e2,
        _ => false,
    }
}

/// Relies on `String::from_utf8`: returns the string holding exactly the
/// given bytes when they are valid UTF-8 (so its characters are their UTF-8
/// decoding), and nothing exactly when they are not.
#[verifier::external_body]
fn bytes_to_string(bytes: Vec<u8>) -> (r: Option<String>)
    ensures
        r is Some <==> valid_utf8(bytes@),
        r matches Some(s) ==> s@ == decode_utf8(bytes@),
{
    match String::from_utf8(bytes) {
        Ok(s) => Some(s),
        Err(_) => None,
    }
}

/// Encodes one string field of a payload.
fn encode_string(s: &String) -> (r: Vec<u8>)
    ensures
        r@ == spec_string_bytes(s@),
{
    let bytes: &[u8] = s.as_str().as_bytes();
    let n = bytes.len();
    let mut out = u64_to_le_bytes(n as u64);
    let mut tail = slice_to_vec(bytes);
    out.append(&mut tail);
    out
}

/// Encodes one [`NetworkError`] as payload bytes.
fn encode_error(e: &NetworkError) -> (r: Vec<u8>)
    ensures
        r@ == spec_error_bytes(e@),
{
    match e {
        NetworkError::VersionMismatch(v1, v2) => {
            let mut out = u32_to_le_bytes(0u32);
            let mut b1 = encode_string(v1);
            let mut b2 = encode_string(v2);
            out.append(&mut b1);
            out.append(&mut b2);
            out
        }
        NetworkError::ShouldCrashBothTrue => u32_to_le_bytes(1u32),
    }
}

/// Encodes one [`NetworkPacket`] as payload bytes (no frame header yet).
fn encode_payload(p: &NetworkPacket) -> (r: Vec<u8>)
    ensures
        r@ == spec_payload_bytes(p@),
{
    match p {
        NetworkPacket::Init { version, should_crash } => {
            let mut out = u32_to_le_bytes(0u32);
            let mut vb = encode_string(version);
            out.append(&mut vb);
            out.push(if *should_crash { 1u8 } else { 0u8 });
            out
        }
        NetworkPacket::Error(e) => {
            let mut out = u32_to_le_bytes(1u32);
            let mut eb = encode_error(e);
            out.append(&mut eb);
            out
        }
    }
}

/// An encoded string field decodes back to the string that was encoded, and
/// consumes exactly its own bytes.
proof fn lemma_take_string_of_encoded(s: Seq<char>, rest: Seq<u8>)
    requires
        encode_utf8(s).len() <= u64::MAX,
    ensures
        spec_take_string(spec_string_bytes(s) + rest) == Ok::<(Seq<char>, Seq<u8>), DecodeError>(
            (s, rest),
        ),
{
    let eb = encode_utf8(s);
    let n = eb.len() as int;
    let b = spec_string_bytes(s) + rest;
    lemma_auto_spec_u64_to_from_le_bytes();
    assert(b.take(8) =~= spec_u64_to_le_bytes(n as u64));
    assert(spec_u64_from_le_bytes(b.take(8)) == n as u64);
    assert(b.len() - 8 == n + rest.len());
    assert(b.subrange(8, 8 + n) =~= eb);
    encode_utf8_valid_utf8(s);
    encode_utf8_decode_utf8(s);
    assert(b.skip(8 + n) =~= rest);
}

/// An encoded [`NetworkError`] decodes back to the error that was encoded,
/// and consumes exactly its own bytes.
proof fn lemma_take_error_of_encoded(e: NetworkErrorView, rest: Seq<u8>)
    requires
        spec_error_bytes(e).len() <= u64::MAX,
    ensures
        spec_take_error(spec_error_bytes(e) + rest) == Ok::<
            (NetworkErrorView, Seq<u8>),
            DecodeError,
        >((e, rest)),
{
    let b = spec_error_bytes(e) + rest;
    lemma_auto_spec_u32_to_from_le_bytes();
    match e {
        NetworkErrorView::VersionMismatch(v1, v2) => {
            assert(b.take(4) =~= spec_u32_to_le_bytes(0u32));
            assert(b.skip(4) =~= spec_string_bytes(v1) + (spec_string_bytes(v2) + rest));
            lemma_take_string_of_encoded(v1, spec_string_bytes(v2) + rest);
            lemma_take_string_of_encoded(v2, rest);
        }
        NetworkErrorView::ShouldCrashBothTrue => {
            assert(b.take(4) =~= spec_u32_to_le_bytes(1u32));
            assert(b.skip(4) =~= rest);
        }
    }
}

/// Framing round trip: decoding the payload of an encoded packet gives back
/// that packet, and decoding the frame's 6-byte header announces exactly the
/// payload that follows it.
pub proof fn lemma_packet_round_trip(p: NetworkPacketView)
    requires
        payload_fits(p),
    ensures
        spec_decode_payload(spec_payload_bytes(p)) == Ok::<NetworkPacketView, DecodeError>(p),
        spec_header_length(spec_frame_bytes(p).take(6)) == Some(
            spec_payload_bytes(p).len() as u16,
        ),
        spec_frame_bytes(p).skip(6) == spec_payload_bytes(p),
{
    let b = spec_payload_bytes(p);
    lemma_auto_spec_u32_to_from_le_bytes();
    lemma_auto_spec_u16_to_from_le_bytes();

    // The payload decodes back to the packet.
    match p {
        NetworkPacketView::Init { version, should_crash } => {
            let bit = seq![if should_crash { 1u8 } else { 0u8 }];
            assert(b.take(4) =~= spec_u32_to_le_bytes(0u32));
            assert(b.skip(4) =~= spec_string_bytes(version) + bit);
            lemma_take_string_of_encoded(version, bit);
            assert(bit.skip(1) =~= Seq::<u8>::empty());
        }
        NetworkPacketView::Error(e) => {
            assert(b.take(4) =~= spec_u32_to_le_bytes(1u32));
            assert(b.skip(4) =~= spec_error_bytes(e) + Seq::<u8>::empty());
            lemma_take_error_of_encoded(e, Seq::<u8>::empty());
        }
    }

    // The frame's header announces exactly the payload behind it.
    let frame = spec_frame_bytes(p);
    let header = frame.take(6);
    assert(header.take(4) =~= spec_u32_to_le_bytes(NET_MAGIC_NUMBER));
    assert(header.skip(4) =~= spec_u16_to_le_bytes(b.len() as u16));
    assert(frame.skip(6) =~= b);
}

/// A string field that decodes came from exactly the bytes it was read
/// from: its own encoding followed by the remainder.
proof fn lemma_take_string_exact(b: Seq<u8>)
    ensures
        spec_take_string(b) matches Ok((s, rest)) ==> spec_string_bytes(s) + rest == b,
{
    lemma_auto_spec_u64_to_from_le_bytes();
    if spec_take_string(b) is Ok {
        let n = spec_u64_from_le_bytes(b.take(8)) as int;
        let sb = b.subrange(8, 8 + n);
        decode_utf8_encode_utf8(sb);
        assert(spec_string_bytes(decode_utf8(sb)) =~= b.take(8) + sb);
        assert((b.take(8) + sb) + b.skip(8 + n) =~= b);
    }
}

/// An error field that decodes came from exactly the bytes it was read from.
proof fn lemma_take_error_exact(b: Seq<u8>)
    ensures
        spec_take_error(b) matches Ok((e, rest)) ==> spec_error_bytes(e) + rest == b,
{
    lemma_auto_spec_u32_to_from_le_bytes();
    if spec_take_error(b) is Ok {
        let tag = spec_u32_from_le_bytes(b.take(4));
        let rest = b.skip(4);
        if tag == 0u32 {
            lemma_take_string_exact(rest);
            let (v1, r1) = spec_take_string(rest)->Ok_0;
            lemma_take_string_exact(r1);
            let (v2, r2) = spec_take_string(r1)->Ok_0;
            assert(spec_error_bytes(NetworkErrorView::VersionMismatch(v1, v2)) + r2 =~= b.take(4)
                + (spec_string_bytes(v1) + (spec_string_bytes(v2) + r2)));
            assert(b.take(4) + rest =~= b);
        } else {
            assert(spec_error_bytes(NetworkErrorView::ShouldCrashBothTrue) + rest =~= b.take(4)
                + rest);
            assert(b.take(4) + rest =~= b);
        }
    }
}

/// The framing is unambiguous: a payload that decodes at all is exactly the
/// encoding of the packet it decodes to — no other byte sequence stands for
/// that packet, and no byte of the payload is ignored.
pub proof fn lemma_decode_exact(b: Seq<u8>)
    ensures
        spec_decode_payload(b) matches Ok(p) ==> spec_payload_bytes(p) == b,
{
    lemma_auto_spec_u32_to_from_le_bytes();
    if spec_decode_payload(b) is Ok {
        let tag = spec_u32_from_le_bytes(b.take(4));
        let rest = b.skip(4);
        assert(b.take(4) + rest =~= b);
        if tag == 0u32 {
            lemma_take_string_exact(rest);
            let (version, r1) = spec_take_string(rest)->Ok_0;
            let (sc, r2) = spec_take_bool(r1)->Ok_0;
            assert(r1 =~= seq![if sc { 1u8 } else { 0u8 }] + r2);
            assert(spec_payload_bytes(NetworkPacketView::Init { version, should_crash: sc })
                =~= b.take(4) + (spec_string_bytes(version) + r1));
        } else {
            lemma_take_error_exact(rest);
            let (e, r1) = spec_take_error(rest)->Ok_0;
            assert(spec_error_bytes(e) + r1 =~= spec_error_bytes(e));
            assert(spec_payload_bytes(NetworkPacketView::Error(e)) =~= b.take(4) + (
            spec_error_bytes(e) + r1));
        }
    }
}

/// Reads one string field of a payload, starting at `pos`.
fn take_string(b: &[u8], pos: usize) -> (r: Result<(String, usize), DecodeError>)
    requires
        pos <= b@.len(),
    ensures
        match (r, spec_take_string(b@.skip(pos as int))) {
            (Ok((s, end)), Ok((sv, rest))) => {
                &&& s@ == sv
                &&& pos + 8 <= end <= b@.len()
                &&& b@.skip(end as int) == rest
            },
            (Err(e1), Err(e2)) => e1 == e2,
            _ => false,
        },
{
    let len = b.len();
    if len - pos < 8 {
        return Err(DecodeError::UnexpectedEnd);
    }
    let len_field = slice_subrange(b, pos, pos + 8);
    proof {
        assert(len_field@ =~= b@.skip(pos as int).take(8));
    }
    let n64 = u64_from_le_bytes(len_field);
    if n64 > (len - pos - 8) as u64 {
        return Err(DecodeError::UnexpectedEnd);
    }
    let n = n64 as usize;
    let sb = slice_subrange(b, pos + 8, pos + 8 + n);
    proof {
        assert(sb@ =~= b@.skip(pos as int).subrange(8, 8 + n64 as int));
    }
    let sv = slice_to_vec(sb);
    match bytes_to_string(sv) {
        Some(s) => {
            proof {
                assert(b@.skip((pos + 8 + n) as int) =~= b@.skip(pos as int).skip(
                    8 + n64 as int,
                ));
            }
            Ok((s, pos + 8 + n))
        }
        None => Err(DecodeError::BadUtf8),
    }
}

/// Reads one [`NetworkError`] field of a payload, starting at `pos`.
fn take_error(b: &[u8], pos: usize) -> (r: Result<(NetworkError, usize), DecodeError>)
    requires
        pos <= b@.len(),
    ensures
        match (r, spec_take_error(b@.skip(pos as int))) {
            (Ok((e, end)), Ok((ev, rest))) => {
                &&& e@ == ev
                &&& pos + 4 <= end <= b@.len()
                &&& b@.skip(end as int) == rest
            },
            (Err(e1), Err(e2)) => e1 == e2,
            _ => false,
        },
{
    let len = b.len();
    if len - pos < 4 {
        return Err(DecodeError::UnexpectedEnd);
    }
    let tag_field = slice_subrange(b, pos, pos + 4);
    proof {
        assert(tag_field@ =~= b@.skip(pos as int).take(4));
        assert(b@.skip((pos + 4) as int) =~= b@.skip(pos as int).skip(4));
    }
    let tag = u32_from_le_bytes(tag_field);
    if tag == 0u32 {
        match take_string(b, pos + 4) {
            Ok((v1, p1)) => match take_string(b, p1) {
                Ok((v2, p2)) => Ok((NetworkError::VersionMismatch(v1, v2), p2)),
                Err(e) => Err(e),
            },
            Err(e) => Err(e),
        }
    } else if tag == 1u32 {
        Ok((NetworkError::ShouldCrashBothTrue, pos + 4))
    } else {
        Err(DecodeError::BadErrorTag)
    }
}

/// Deserializes a payload of exactly the announced length into one packet.
/// Malformed payloads fail with the exact [`DecodeError`] given by
/// [`spec_decode_payload`]; they never panic the process.
pub fn deserialize_packet(to_de: &[u8]) -> (r: Result<NetworkPacket, DecodeError>)
    ensures
        decode_result_matches(r, spec_decode_payload(to_de@)),
{
    let len = to_de.len();
    if len < 4 {
        return Err(DecodeError::UnexpectedEnd);
    }
    let tag_field = slice_subrange(to_de, 0, 4);
    proof {
        assert(tag_field@ =~= to_de@.take(4));
        assert(to_de@.skip(4) =~= to_de@.skip(0).skip(4));
    }
    let tag = u32_from_le_bytes(tag_field);
    if tag == 0u32 {
        match take_string(to_de, 4) {
            Ok((version, p1)) => {
                if len - p1 < 1 {
                    return Err(DecodeError::UnexpectedEnd);
                }
                let byte = to_de[p1];
                let should_crash = if byte == 0u8 {
                    false
                } else if byte == 1u8 {
                    true
                } else {
                    return Err(DecodeError::BadBool);
                };
                proof {
                    assert(to_de@.skip(p1 as int).skip(1) =~= to_de@.skip(p1 + 1));
                }
                if p1 + 1 != len {
                    return Err(DecodeError::TrailingBytes);
                }
                Ok(NetworkPacket::Init { version, should_crash })
            }
            Err(e) => Err(e),
        }
    } else if tag == 1u32 {
        match take_error(to_de, 4) {
            Ok((e, p1)) => {
                if p1 != len {
                    return Err(DecodeError::TrailingBytes);
                }
                Ok(NetworkPacket::Error(e))
            }
            Err(e) => Err(e),
        }
    } else {
        Err(DecodeError::BadPacketTag)
    }
}

/// Serializes a packet into one whole frame: the magic number (so a desynced
/// stream is noticed instead of read as arbitrary data), the 16-bit payload
/// length, and the payload. A payload that would overflow the length field
/// is refused, never truncated.
pub fn seralize_packet(to_ser: &NetworkPacket) -> (r: Result<Vec<u8>, EncodeError>)
    ensures
        r is Ok <==> payload_fits(to_ser@),
        r matches Ok(frame) ==> frame@ == spec_frame_bytes(to_ser@),
        r is Err ==> r == Err::<Vec<u8>, EncodeError>(EncodeError::TooLarge),
{
    let mut payload = encode_payload(to_ser);
    if payload.len() > MAX_PAYLOAD_LENGTH {
        return Err(EncodeError::TooLarge);
    }
    let mut result = u32_to_le_bytes(NET_MAGIC_NUMBER);
    let mut len_bytes = u16_to_le_bytes(payload.len() as u16);
    result.append(&mut len_bytes);
    result.append(&mut payload);
    Ok(result)
}

/// Returns the length of a given packet, or a None if the first four bytes
/// do not match [`NET_MAGIC_NUMBER`].
pub fn get_packet_length(to_ln: [u8; 6]) -> (r: Option<u16>)
    ensures
        r == spec_header_length(to_ln@),
        r is None <==> spec_u32_from_le_bytes(to_ln@.take(4)) != NET_MAGIC_NUMBER,
{
    let s = to_ln.as_slice();
    let first_four = slice_subrange(s, 0, 4);
    proof {
        assert(first_four@ =~= to_ln@.take(4));
    }
    let should_be_magic_num = u32_from_le_bytes(first_four);
    if should_be_magic_num != NET_MAGIC_NUMBER {
        return None;
    }
    let next_two = slice_subrange(s, 4, 6);
    proof {
        assert(next_two@ =~= to_ln@.skip(4));
    }
    let length = u16_from_le_bytes(next_two);
    Some(length)
}

} // verus!
