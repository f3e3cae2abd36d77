//! The two single-direction pumps of the bridge, verified over in-memory
//! streams.
//!
//! The inbound pump drains framed messages from the host-facing input and
//! forwards the decoded chunks toward the subprocess; the outbound pump
//! wraps every chunk the subprocess writes into one structured frame
//! toward the host.  Each pump is specified by a recursive function over
//! the whole stream, and the driver that performs the real blocking reads
//! and writes feeds the same codec calls one frame at a time.

use vstd::prelude::*;

use crate::codec::{decode_frame, decode_spec, encode_frame_bytes, frame_bytes, Protocol};
use crate::endian::{decode_prefix, lemma_prefix_roundtrip, prefix_bytes, prefix_value, Endian};
use crate::envelope::{buffer_payload, buffer_tag, payload_fields};

verus! {

/// Why a pump stopped.  Reaching the natural end of the stream is the
/// designed termination signal, not an error.
#[derive(Clone, Copy, PartialEq, Eq, Structural, Debug)]
pub enum PumpEnd {
    /// The stream reached its natural end.
    StreamClosed,
    /// A declared length disagreed with the bytes that arrived, or a
    /// payload did not parse; the byte stream cannot be trusted after
    /// this point.
    MalformedFrame,
    /// A chunk's envelope outgrew the 32-bit length prefix.
    OversizedPayload,
}

/// What the inbound pump writes toward the subprocess, and why it stops,
/// for a host-facing input stream holding the bytes `s`: frames are taken
/// from the front until the stream ends inside a prefix (the clean
/// shutdown path), a declared payload is cut short, or a payload fails to
/// decode.  A frame of declared length zero is a no-op.
pub open spec fn inbound_spec(s: Seq<u8>, proto: Protocol, e: Endian) -> (Seq<u8>, PumpEnd)
    decreases s.len(),
{
    if s.len() < 4 {
        (Seq::<u8>::empty(), PumpEnd::StreamClosed)
    } else {
        let len = prefix_value(s.subrange(0, 4), e);
        let rest = s.skip(4);
        if len == 0 {
            inbound_spec(rest, proto, e)
        } else if rest.len() < len {
            (Seq::<u8>::empty(), PumpEnd::MalformedFrame)
        } else {
            match decode_spec(len, rest.subrange(0, len as int), proto) {
                Ok(chunk) => {
                    let tail = inbound_spec(rest.skip(len as int), proto, e);
                    (chunk + tail.0, tail.1)
                },
                Err(_) => (Seq::<u8>::empty(), PumpEnd::MalformedFrame),
            }
        }
    }
}

/// A frame whose declared length is zero produces no write and does not
/// end the pump: the stream behind it is handled as if the frame had
/// never arrived.
pub proof fn lemma_zero_length_frame_noop(rest: Seq<u8>, proto: Protocol, e: Endian)
    ensures
        inbound_spec(prefix_bytes(0, e) + rest, proto, e) == inbound_spec(rest, proto, e),
{
    lemma_prefix_roundtrip(0, e);
    let s = prefix_bytes(0, e) + rest;
    assert(s.subrange(0, 4) =~= prefix_bytes(0, e));
    assert(s.skip(4) =~= rest);
}

/// A stream that ends before a full prefix arrives closes the pump
/// cleanly, with nothing written.
pub proof fn lemma_eof_closes_inbound(s: Seq<u8>, proto: Protocol, e: Endian)
    requires
        s.len() < 4,
    ensures
        inbound_spec(s, proto, e) == (Seq::<u8>::empty(), PumpEnd::StreamClosed),
{
}

/// A prefix that declares `len` payload bytes over a stream that closes
/// after fewer ends the pump with a framing fault, with nothing of the
/// partial payload forwarded.
pub proof fn lemma_short_read_rejected(len: u32, partial: Seq<u8>, proto: Protocol, e: Endian)
    requires
        len > 0,
        partial.len() < len,
    ensures
        inbound_spec(prefix_bytes(len, e) + partial, proto, e) == (
            Seq::<u8>::empty(),
            PumpEnd::MalformedFrame,
        ),
{
    lemma_prefix_roundtrip(len, e);
    let s = prefix_bytes(len, e) + partial;
    assert(s.subrange(0, 4) =~= prefix_bytes(len, e));
    assert(s.skip(4) =~= partial);
}

/// One well-formed structured frame at the front of the stream forwards
/// exactly its chunk, and the pump carries on behind it.
pub proof fn lemma_inbound_eats_frame(chunk: Seq<u8>, rest: Seq<u8>, e: Endian)
    requires
        payload_fields(buffer_payload(chunk)) == Some((buffer_tag(), chunk)),
        2 <= buffer_payload(chunk).len() <= u32::MAX,
    ensures
        inbound_spec(frame_bytes(chunk, e) + rest, Protocol::Structured, e).0 == chunk
            + inbound_spec(rest, Protocol::Structured, e).0,
        inbound_spec(frame_bytes(chunk, e) + rest, Protocol::Structured, e).1 == inbound_spec(
            rest,
            Protocol::Structured,
            e,
        ).1,
{
    let payload = buffer_payload(chunk);
    let len = payload.len() as u32;
    let s = frame_bytes(chunk, e) + rest;
    lemma_prefix_roundtrip(len, e);
    assert(s.subrange(0, 4) =~= prefix_bytes(len, e));
    assert(s.skip(4) =~= payload + rest);
    assert(s.skip(4).subrange(0, len as int) =~= payload);
    assert(s.skip(4).skip(len as int) =~= rest);
}

/// Runs the inbound pump over the whole host-facing input stream: returns
/// the bytes written toward the subprocess, in order, and why the pump
/// stopped.
pub fn run_inbound(input: &Vec<u8>, proto: Protocol, e: Endian) -> (r: (Vec<u8>, PumpEnd))
    ensures
        r.0@ == inbound_spec(input@, proto, e).0,
        r.1 == inbound_spec(input@, proto, e).1,
{
    let mut out: Vec<u8> = Vec::new();
    let mut i: usize = 0;
    proof {
        assert(input@.skip(0) =~= input@);
        assert(out@ + inbound_spec(input@, proto, e).0 =~= inbound_spec(input@, proto, e).0);
    }
    loop
        invariant
            i <= input@.len(),
            inbound_spec(input@, proto, e).0 == out@ + inbound_spec(
                input@.skip(i as int),
                proto,
                e,
            ).0,
            inbound_spec(input@, proto, e).1 == inbound_spec(input@.skip(i as int), proto, e).1,
        decreases input@.len() - i,
    {
        let ghost suf = input@.skip(i as int);
        if input.len() - i < 4 {
            assert(out@ + inbound_spec(suf, proto, e).0 =~= out@);
            return (out, PumpEnd::StreamClosed);
        }
        let len = decode_prefix(input, i, e);
        proof {
            assert(input@.subrange(i as int, i + 4) =~= suf.subrange(0, 4));
        }
        if len == 0 {
            proof {
                assert(input@.skip(i + 4) =~= suf.skip(4));
            }
            i = i + 4;
            continue ;
        }
        let remaining = input.len() - i - 4;
        if remaining < len as usize {
            assert(suf.skip(4).len() < len);
            assert(out@ + inbound_spec(suf, proto, e).0 =~= out@);
            return (out, PumpEnd::MalformedFrame);
        }
        let start = i + 4;
        let mut payload: Vec<u8> = Vec::new();
        let mut j: usize = 0;
        while j < len as usize
            invariant
                j <= len as usize,
                start + len as usize <= input@.len(),
                input@.len() <= usize::MAX,
                payload@ == input@.subrange(start as int, start + j),
            decreases len as usize - j,
        {
            payload.push(input[start + j]);
            j = j + 1;
            assert(payload@ =~= input@.subrange(start as int, start + j));
        }
        proof {
            assert(payload@ =~= suf.skip(4).subrange(0, len as int));
        }
        match decode_frame(len, &payload, proto) {
            Ok(mut chunk) => {
                let ghost old_out = out@;
                proof {
                    assert(suf.skip(4).skip(len as int) =~= input@.skip(i + 4 + len as int));
                }
                out.append(&mut chunk);
                i = i + 4 + len as usize;
                proof {
                    let tail = inbound_spec(input@.skip(i as int), proto, e);
                    assert(old_out + inbound_spec(suf, proto, e).0 =~= out@ + tail.0);
                }
            },
            Err(_) => {
                assert(out@ + inbound_spec(suf, proto, e).0 =~= out@);
                return (out, PumpEnd::MalformedFrame);
            },
        }
    }
}

/// The views of a list of owned chunks.
pub open spec fn views_of(chunks: Seq<Vec<u8>>) -> Seq<Seq<u8>> {
    chunks.map_values(|c: Vec<u8>| c@)
}

/// No read of the list is empty: the stream stays open through the whole
/// list.
pub open spec fn no_empty_chunk(cs: Seq<Seq<u8>>) -> bool {
    forall|k: int| 0 <= k < cs.len() ==> cs[k].len() > 0
}

/// The chunks of a list, run together in order.
pub open spec fn concat_chunks(cs: Seq<Seq<u8>>) -> Seq<u8>
    decreases cs.len(),
{
    if cs.len() == 0 {
        Seq::<u8>::empty()
    } else {
        cs[0] + concat_chunks(cs.skip(1))
    }
}

proof fn lemma_concat_take_step(cs: Seq<Seq<u8>>, i: int)
    requires
        0 <= i < cs.len(),
    ensures
        concat_chunks(cs.take(i + 1)) == concat_chunks(cs.take(i)) + cs[i],
    decreases i,
{
    if i == 0 {
        assert(cs.take(1).skip(1) =~= Seq::<Seq<u8>>::empty());
        assert(concat_chunks(cs.take(0)) + cs[0] =~= cs[0] + concat_chunks(
            Seq::<Seq<u8>>::empty(),
        ));
    } else {
        lemma_concat_take_step(cs.skip(1), i - 1);
        assert(cs.take(i + 1).skip(1) =~= cs.skip(1).take(i));
        assert(cs.take(i).skip(1) =~= cs.skip(1).take(i - 1));
        assert(cs[0] + (concat_chunks(cs.skip(1).take(i - 1)) + cs.skip(1)[i - 1]) =~= (cs[0]
            + concat_chunks(cs.skip(1).take(i - 1))) + cs[i]);
    }
}

/// What the outbound pump emits toward the host, and why it stops, for
/// the list `cs` of successive reads from the subprocess's output: every
/// read becomes exactly one structured frame, in order, until a read
/// comes back empty — the subprocess has exited or closed its output,
/// the pump's normal termination — or a chunk's envelope outgrows the
/// length prefix.
pub open spec fn outbound_spec(cs: Seq<Seq<u8>>, e: Endian) -> (Seq<u8>, PumpEnd)
    decreases cs.len(),
{
    if cs.len() == 0 || cs[0].len() == 0 {
        (Seq::<u8>::empty(), PumpEnd::StreamClosed)
    } else if buffer_payload(cs[0]).len() > u32::MAX {
        (Seq::<u8>::empty(), PumpEnd::OversizedPayload)
    } else {
        let tail = outbound_spec(cs.skip(1), e);
        (frame_bytes(cs[0], e) + tail.0, tail.1)
    }
}

/// A closed output stream — the read list ends, or its next read is the
/// empty end-of-stream read — ends the pump cleanly, with no further
/// frame emitted.
pub proof fn lemma_closed_output_ends_pump(cs: Seq<Seq<u8>>, e: Endian)
    requires
        cs.len() == 0 || cs[0].len() == 0,
    ensures
        outbound_spec(cs, e) == (Seq::<u8>::empty(), PumpEnd::StreamClosed),
{
}

/// Runs the outbound pump over a list of successive reads from the
/// subprocess's output: returns the frame bytes emitted toward the host,
/// in order, and why the pump stopped.
///
/// Order preservation is part of the contract: when the whole list is
/// pumped, feeding the emitted bytes back through the inbound frame
/// parser yields the chunks run together in their original order — one
/// frame per read, same content, same order.
pub fn run_outbound(chunks: &Vec<Vec<u8>>, e: Endian) -> (r: (Vec<u8>, PumpEnd))
    ensures
        r.0@ == outbound_spec(views_of(chunks@), e).0,
        r.1 == outbound_spec(views_of(chunks@), e).1,
        r.1 == PumpEnd::StreamClosed && no_empty_chunk(views_of(chunks@)) ==> inbound_spec(
            r.0@,
            Protocol::Structured,
            e,
        ).0 == concat_chunks(views_of(chunks@)) && inbound_spec(r.0@, Protocol::Structured, e).1
            == PumpEnd::StreamClosed,
{
    let ghost cs = views_of(chunks@);
    let mut out: Vec<u8> = Vec::new();
    let mut idx: usize = 0;
    proof {
        assert forall|s: Seq<u8>|
            (#[trigger] inbound_spec(out@ + s, Protocol::Structured, e)).0 == concat_chunks(
                cs.take(0),
            ) + inbound_spec(s, Protocol::Structured, e).0 && inbound_spec(
                out@ + s,
                Protocol::Structured,
                e,
            ).1 == inbound_spec(s, Protocol::Structured, e).1 by {
            assert(out@ + s =~= s);
            assert(concat_chunks(cs.take(0)) + inbound_spec(s, Protocol::Structured, e).0
                =~= inbound_spec(s, Protocol::Structured, e).0);
        }
    }
    proof {
        assert(cs.skip(0) =~= cs);
        assert(out@ + outbound_spec(cs, e).0 =~= outbound_spec(cs, e).0);
    }
    loop
        invariant
            idx <= chunks@.len(),
            cs == views_of(chunks@),
            outbound_spec(cs, e).0 == out@ + outbound_spec(cs.skip(idx as int), e).0,
            outbound_spec(cs, e).1 == outbound_spec(cs.skip(idx as int), e).1,
            forall|s: Seq<u8>|
                (#[trigger] inbound_spec(out@ + s, Protocol::Structured, e)).0 == concat_chunks(
                    cs.take(idx as int),
                ) + inbound_spec(s, Protocol::Structured, e).0 && inbound_spec(
                    out@ + s,
                    Protocol::Structured,
                    e,
                ).1 == inbound_spec(s, Protocol::Structured, e).1,
        decreases chunks@.len() - idx,
    {
        let ghost done = cs.take(idx as int);
        if idx == chunks.len() {
            proof {
                assert(out@ + outbound_spec(cs.skip(idx as int), e).0 =~= out@);
                if no_empty_chunk(cs) {
                    assert(out@ + Seq::<u8>::empty() =~= out@);
                    assert(inbound_spec(out@ + Seq::<u8>::empty(), Protocol::Structured, e).0
                        == concat_chunks(done) + inbound_spec(
                        Seq::<u8>::empty(),
                        Protocol::Structured,
                        e,
                    ).0);
                    assert(done =~= cs);
                    assert(concat_chunks(cs) + Seq::<u8>::empty() =~= concat_chunks(cs));
                }
            }
            return (out, PumpEnd::StreamClosed);
        }
        proof {
            assert(cs[idx as int] == chunks@[idx as int]@);
        }
        if chunks[idx].len() == 0 {
            proof {
                assert(cs.skip(idx as int)[0] == cs[idx as int]);
                assert(out@ + outbound_spec(cs.skip(idx as int), e).0 =~= out@);
            }
            return (out, PumpEnd::StreamClosed);
        }
        match encode_frame_bytes(&chunks[idx], e) {
            Ok(mut frame) => {
                let ghost c = cs[idx as int];
                let ghost old_out = out@;
                proof {
                    assert(cs.skip(idx as int)[0] == c);
                    assert(cs.skip(idx as int).skip(1) =~= cs.skip(idx + 1));
                }
                out.append(&mut frame);
                proof {
                    lemma_concat_take_step(cs, idx as int);
                    assert forall|s: Seq<u8>|
                        (#[trigger] inbound_spec(out@ + s, Protocol::Structured, e)).0
                            == concat_chunks(cs.take(idx + 1)) + inbound_spec(
                            s,
                            Protocol::Structured,
                            e,
                        ).0 && inbound_spec(out@ + s, Protocol::Structured, e).1 == inbound_spec(
                            s,
                            Protocol::Structured,
                            e,
                        ).1 by {
                        lemma_inbound_eats_frame(c, s, e);
                        assert(out@ + s =~= old_out + (frame_bytes(c, e) + s));
                        assert(inbound_spec(
                            old_out + (frame_bytes(c, e) + s),
                            Protocol::Structured,
                            e,
                        ).0 == concat_chunks(cs.take(idx as int)) + inbound_spec(
                            frame_bytes(c, e) + s,
                            Protocol::Structured,
                            e,
                        ).0);
                        assert(concat_chunks(cs.take(idx as int)) + (c + inbound_spec(
                            s,
                            Protocol::Structured,
                            e,
                        ).0) =~= (concat_chunks(cs.take(idx as int)) + c) + inbound_spec(
                            s,
                            Protocol::Structured,
                            e,
                        ).0);
                    }
                    assert(old_out + (frame_bytes(c, e) + outbound_spec(cs.skip(idx + 1), e).0)
                        =~= out@ + outbound_spec(cs.skip(idx + 1), e).0);
                }
                idx = idx + 1;
            },
            Err(_) => {
                proof {
                    assert(cs.skip(idx as int)[0] == cs[idx as int]);
                    assert(out@ + outbound_spec(cs.skip(idx as int), e).0 =~= out@);
                }
                return (out, PumpEnd::OversizedPayload);
            },
        }
    }
}

} // verus!
