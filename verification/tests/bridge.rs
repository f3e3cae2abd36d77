use firenvim::codec::{decode_frame, encode_frame, encode_frame_bytes, FrameError, Protocol};
use firenvim::endian::{decode_prefix, encode_prefix, native_endian, Endian};
use firenvim::envelope::decode_envelope;
use firenvim::pump::{run_inbound, run_outbound, PumpEnd};

fn round_trip(chunk: Vec<u8>) {
    let (len, payload) = encode_frame(&chunk).expect("chunk fits a 32-bit prefix");
    let decoded = decode_frame(len, &payload, Protocol::Structured).expect("own frame decodes");
    assert_eq!(decoded, chunk);
}

#[test]
fn round_trip_empty_chunk() {
    round_trip(vec![]);
}

#[test]
fn round_trip_small_chunks() {
    round_trip(vec![0x00]);
    round_trip(vec![0x61, 0x62, 0x63]);
    round_trip(vec![0xff, 0x00, 0x7f, 0x80]);
}

#[test]
fn round_trip_all_byte_values() {
    let chunk: Vec<u8> = (0u16..=255).map(|b| b as u8).collect();
    round_trip(chunk);
}

#[test]
fn round_trip_large_chunk() {
    let chunk: Vec<u8> = (0..100_000).map(|i| (i % 251) as u8).collect();
    round_trip(chunk);
}

#[test]
fn prefix_always_counts_the_payload() {
    for chunk in [vec![], vec![0x41], vec![0x00, 0xff], (0..1000).map(|i| i as u8).collect()] {
        let (len, payload) = encode_frame(&chunk).unwrap();
        assert_eq!(len as usize, payload.len());
    }
}

#[test]
fn encoded_payload_is_a_buffer_envelope_for_any_parser() {
    let (_, payload) = encode_frame(&vec![0x61, 0x62, 0x63]).unwrap();
    let value: serde_json::Value = serde_json::from_slice(&payload).unwrap();
    assert_eq!(value.get("type").unwrap().as_str().unwrap(), "Buffer");
    let data: Vec<u64> = value
        .get("data")
        .unwrap()
        .as_array()
        .unwrap()
        .iter()
        .map(|n| n.as_u64().unwrap())
        .collect();
    assert_eq!(data, vec![0x61, 0x62, 0x63]);
}

#[test]
fn outbound_keeps_chunk_order_and_content() {
    let e = Endian::Little;
    let chunks = vec![vec![1u8, 2], vec![3u8], vec![4u8, 5, 6]];
    let (wire, end) = run_outbound(&chunks, e);
    assert_eq!(end, PumpEnd::StreamClosed);

    // Parse the emitted stream frame by frame: one frame per chunk, in order.
    let mut at = 0usize;
    let mut seen: Vec<Vec<u8>> = vec![];
    while at < wire.len() {
        let len = decode_prefix(&wire, at, e) as usize;
        let payload = wire[at + 4..at + 4 + len].to_vec();
        let (tag, data) = decode_envelope(&payload).expect("an emitted payload parses");
        assert_eq!(tag, "Buffer");
        seen.push(data);
        at += 4 + len;
    }
    assert_eq!(seen, chunks);

    // The verified inbound pump agrees: it forwards the chunks run together.
    let (forwarded, end) = run_inbound(&wire, Protocol::Structured, e);
    assert_eq!(forwarded, vec![1u8, 2, 3, 4, 5, 6]);
    assert_eq!(end, PumpEnd::StreamClosed);
}

#[test]
fn zero_length_frame_is_a_noop() {
    let e = native_endian();
    let mut wire = encode_prefix(0, e);
    wire.extend_from_slice(&encode_frame_bytes(&vec![0x61, 0x62], e).unwrap());
    wire.extend_from_slice(&encode_prefix(0, e));
    let (forwarded, end) = run_inbound(&wire, Protocol::Structured, e);
    assert_eq!(forwarded, vec![0x61, 0x62]);
    assert_eq!(end, PumpEnd::StreamClosed);
}

#[test]
fn outbound_ends_cleanly_on_eof() {
    let e = native_endian();
    let (wire, end) = run_outbound(&vec![], e);
    assert_eq!(wire, Vec::<u8>::new());
    assert_eq!(end, PumpEnd::StreamClosed);
}

#[test]
fn outbound_emits_nothing_after_an_empty_read() {
    let e = native_endian();
    let (wire, end) = run_outbound(&vec![vec![], vec![0x41]], e);
    assert_eq!(wire, Vec::<u8>::new());
    assert_eq!(end, PumpEnd::StreamClosed);
}

#[test]
fn short_payload_read_is_rejected() {
    let e = native_endian();
    let mut wire = encode_prefix(10, e);
    wire.extend_from_slice(&[0x01, 0x02, 0x03, 0x04]);
    let (forwarded, end) = run_inbound(&wire, Protocol::Structured, e);
    assert_eq!(forwarded, Vec::<u8>::new());
    assert_eq!(end, PumpEnd::MalformedFrame);
}

#[test]
fn partial_prefix_closes_the_stream() {
    let e = native_endian();
    let (forwarded, end) = run_inbound(&vec![0x05, 0x00], Protocol::Structured, e);
    assert_eq!(forwarded, Vec::<u8>::new());
    assert_eq!(end, PumpEnd::StreamClosed);
}

#[test]
fn legacy_envelope_strips_tag_and_trailing_bytes() {
    let e = native_endian();
    let mut wire = encode_prefix(5, e);
    wire.extend_from_slice(&[0x00, 0x41, 0x42, 0x43, 0x00]);
    let (forwarded, end) = run_inbound(&wire, Protocol::RawEnvelope, e);
    assert_eq!(forwarded, vec![0x41, 0x42]);
    assert_eq!(end, PumpEnd::StreamClosed);
}

#[test]
fn one_subprocess_write_becomes_one_buffer_frame() {
    let e = native_endian();
    let (wire, end) = run_outbound(&vec![vec![0x61, 0x62, 0x63]], e);
    assert_eq!(end, PumpEnd::StreamClosed);
    let len = decode_prefix(&wire, 0, e) as usize;
    assert_eq!(wire.len(), 4 + len);
    let payload = wire[4..].to_vec();
    let (tag, data) = decode_envelope(&payload).unwrap();
    assert_eq!(tag, "Buffer");
    assert_eq!(data, vec![0x61, 0x62, 0x63]);
}

#[test]
fn length_mismatch_is_malformed() {
    let r = decode_frame(4, &vec![0x01, 0x02, 0x03], Protocol::Structured);
    assert_eq!(r, Err(FrameError::MalformedFrame));
    let r = decode_frame(2, &vec![0x01, 0x02, 0x03], Protocol::RawEnvelope);
    assert_eq!(r, Err(FrameError::MalformedFrame));
}

#[test]
fn unparsable_payload_is_malformed() {
    let payload = vec![0x61, 0x62, 0x63];
    let r = decode_frame(3, &payload, Protocol::Structured);
    assert_eq!(r, Err(FrameError::MalformedFrame));

    let payload = b"{\"type\": \"Buffer\"}".to_vec();
    let r = decode_frame(payload.len() as u32, &payload, Protocol::Structured);
    assert_eq!(r, Err(FrameError::MalformedFrame));

    let payload = b"{\"type\": 3, \"data\": [1]}".to_vec();
    let r = decode_frame(payload.len() as u32, &payload, Protocol::Structured);
    assert_eq!(r, Err(FrameError::MalformedFrame));

    let payload = b"{\"type\": \"Buffer\", \"data\": [256]}".to_vec();
    let r = decode_frame(payload.len() as u32, &payload, Protocol::Structured);
    assert_eq!(r, Err(FrameError::MalformedFrame));
}

#[test]
fn hand_written_envelopes_decode() {
    // A payload this crate never produced: other key order, spaces.
    let payload = b"{\"data\": [1, 2, 3], \"type\": \"Buffer\"}".to_vec();
    let r = decode_frame(payload.len() as u32, &payload, Protocol::Structured);
    assert_eq!(r, Ok(vec![1, 2, 3]));

    let payload = b"{\"type\":\"Input\",\"data\":[]}".to_vec();
    let (tag, data) = decode_envelope(&payload).unwrap();
    assert_eq!(tag, "Input");
    assert_eq!(data, Vec::<u8>::new());
}

#[test]
fn legacy_payload_too_short_to_strip_is_malformed() {
    let r = decode_frame(2, &vec![0x00, 0x41], Protocol::RawEnvelope);
    assert_eq!(r, Err(FrameError::MalformedFrame));
    let r = decode_frame(3, &vec![0x00, 0x41, 0x00], Protocol::RawEnvelope);
    assert_eq!(r, Ok(vec![]));
    let r = decode_frame(4, &vec![0x00, 0x41, 0x42, 0x00], Protocol::RawEnvelope);
    assert_eq!(r, Ok(vec![0x41]));
}

#[test]
fn prefix_bytes_little_and_big_endian() {
    assert_eq!(encode_prefix(0x0102_0304, Endian::Little), vec![0x04, 0x03, 0x02, 0x01]);
    assert_eq!(encode_prefix(0x0102_0304, Endian::Big), vec![0x01, 0x02, 0x03, 0x04]);
    for e in [Endian::Little, Endian::Big] {
        for n in [0u32, 1, 0xff, 0x1_0000, u32::MAX] {
            assert_eq!(decode_prefix(&encode_prefix(n, e), 0, e), n);
        }
    }
}

#[test]
fn native_endian_matches_the_machine() {
    let expected = if 1u32.to_ne_bytes()[0] == 1 { Endian::Little } else { Endian::Big };
    assert_eq!(native_endian(), expected);
    assert_eq!(encode_prefix(0xdead_beef, native_endian()), 0xdead_beefu32.to_ne_bytes().to_vec());
}
