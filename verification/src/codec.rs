//! The framing codec of the host-facing protocol: pure encode and decode
//! between framed messages (a 4-byte length prefix followed by exactly
//! that many payload bytes) and raw byte chunks.
//!
//! Two payload encodings exist across protocol revisions.  On the historic
//! raw-envelope revision the payload carries the chunk directly behind a
//! leading tag byte, and decoding keeps the bytes from offset 1 up to the
//! declared length less two — the exact slicing of that revision, kept for
//! wire compatibility.  On the structured revision the payload is the JSON
//! envelope of [`crate::envelope`].

use vstd::prelude::*;

use crate::endian::{prefix_bytes, Endian};
use crate::envelope::{
    buffer_payload, buffer_tag, decode_envelope, encode_envelope, payload_fields,
};

verus! {

/// The payload encoding of a protocol revision, chosen once at startup.
#[derive(Clone, Copy, PartialEq, Eq, Structural, Debug)]
pub enum Protocol {
    /// Historic revision: the chunk stands in the payload behind one
    /// leading tag byte.
    RawEnvelope,
    /// Current revision: the payload is a JSON envelope object.
    Structured,
}

/// Why a frame could not be encoded or decoded.
#[derive(Clone, Copy, PartialEq, Eq, Structural, Debug)]
pub enum FrameError {
    /// The declared length does not match the bytes at hand, or the
    /// payload does not parse under the chosen revision.
    MalformedFrame,
    /// The serialized payload is too long for a 32-bit length prefix.
    OversizedPayload,
}

/// The chunk that the raw-envelope revision forwards out of a payload:
/// the bytes from offset 1 up to the declared length less two.  A payload
/// shorter than three bytes has no room for the stripped bytes and is
/// malformed.
pub open spec fn raw_envelope_chunk(payload: Seq<u8>) -> Seq<u8>
    recommends
        payload.len() >= 3,
{
    payload.subrange(1, payload.len() - 2)
}

/// What decoding a frame of declared length `len` with payload bytes
/// `payload` yields under the revision `proto`.
pub open spec fn decode_spec(len: u32, payload: Seq<u8>, proto: Protocol) -> Result<
    Seq<u8>,
    FrameError,
> {
    if payload.len() != len {
        Err(FrameError::MalformedFrame)
    } else {
        match proto {
            Protocol::RawEnvelope => if payload.len() >= 3 {
                Ok(raw_envelope_chunk(payload))
            } else {
                Err(FrameError::MalformedFrame)
            },
            Protocol::Structured => match payload_fields(payload) {
                Some(fields) => Ok(fields.1),
                None => Err(FrameError::MalformedFrame),
            },
        }
    }
}

/// Decodes one frame into the raw chunk it carries.
///
/// Fails with [`FrameError::MalformedFrame`] exactly where the declared
/// length disagrees with the payload bytes at hand, or where the payload
/// does not parse under the revision: on the raw envelope a payload too
/// short for its stripped bytes, on the structured revision a payload that
/// is not a JSON envelope.
pub fn decode_frame(len: u32, payload: &Vec<u8>, proto: Protocol) -> (r: Result<
    Vec<u8>,
    FrameError,
>)
    ensures
        match (r, decode_spec(len, payload@, proto)) {
            (Ok(chunk), Ok(named)) => chunk@ == named,
            (Err(got), Err(named)) => got == named,
            _ => false,
        },
{
    if payload.len() != len as usize {
        return Err(FrameError::MalformedFrame);
    }
    match proto {
        Protocol::RawEnvelope => {
            if payload.len() < 3 {
                return Err(FrameError::MalformedFrame);
            }
            let end = payload.len() - 2;
            let mut chunk: Vec<u8> = Vec::new();
            let mut i: usize = 1;
            while i < end
                invariant
                    1 <= i <= end,
                    end == payload@.len() - 2,
                    payload@.len() >= 3,
                    chunk@ == payload@.subrange(1, i as int),
                decreases end - i,
            {
                chunk.push(payload[i]);
                i = i + 1;
                assert(chunk@ =~= payload@.subrange(1, i as int));
            }
            assert(chunk@ =~= raw_envelope_chunk(payload@));
            Ok(chunk)
        },
        Protocol::Structured => {
            match decode_envelope(payload) {
                Some(fields) => Ok(fields.1),
                None => Err(FrameError::MalformedFrame),
            }
        },
    }
}

/// Encodes a raw chunk into a structured frame: the length prefix value
/// and the envelope payload it counts.
///
/// The prefix always equals the exact byte length of the payload; a chunk
/// whose envelope would outgrow the 32-bit prefix is refused, never
/// truncated.  What comes back decodes to the chunk again: the round trip
/// is part of the contract.
pub fn encode_frame(chunk: &Vec<u8>) -> (r: Result<(u32, Vec<u8>), FrameError>)
    ensures
        buffer_payload(chunk@).len() <= u32::MAX ==> match r {
            Ok(frame) => frame.1@ == buffer_payload(chunk@) && frame.0 == frame.1@.len()
                && frame.1@.len() >= 2 && payload_fields(frame.1@) == Some((buffer_tag(), chunk@))
                && decode_spec(
                frame.0,
                frame.1@,
                Protocol::Structured,
            ) == Ok::<Seq<u8>, FrameError>(chunk@),
            Err(_) => false,
        },
        buffer_payload(chunk@).len() > u32::MAX ==> r == Err::<(u32, Vec<u8>), FrameError>(
            FrameError::OversizedPayload,
        ),
{
    let payload = encode_envelope(chunk);
    if payload.len() > u32::MAX as usize {
        return Err(FrameError::OversizedPayload);
    }
    let len = payload.len() as u32;
    Ok((len, payload))
}

/// The full wire bytes of the structured frame that carries `chunk`: the
/// length prefix in the order `e`, then the envelope payload.
pub open spec fn frame_bytes(chunk: Seq<u8>, e: Endian) -> Seq<u8> {
    prefix_bytes(buffer_payload(chunk).len() as u32, e) + buffer_payload(chunk)
}

/// Encodes a raw chunk into the full wire bytes of one structured frame,
/// prefix included, in the order `e`.
pub fn encode_frame_bytes(chunk: &Vec<u8>, e: Endian) -> (r: Result<Vec<u8>, FrameError>)
    ensures
        buffer_payload(chunk@).len() <= u32::MAX ==> match r {
            Ok(bytes) => bytes@ == frame_bytes(chunk@, e) && payload_fields(
                buffer_payload(chunk@),
            ) == Some((buffer_tag(), chunk@)) && buffer_payload(chunk@).len() >= 2,
            Err(_) => false,
        },
        buffer_payload(chunk@).len() > u32::MAX ==> r == Err::<Vec<u8>, FrameError>(
            FrameError::OversizedPayload,
        ),
{
    match encode_frame(chunk) {
        Ok((len, mut payload)) => {
            let mut bytes = crate::endian::encode_prefix(len, e);
            bytes.append(&mut payload);
            assert(bytes@ =~= frame_bytes(chunk@, e));
            Ok(bytes)
        },
        Err(fault) => Err(fault),
    }
}

} // verus!
