use flate2::{write::GzEncoder, Compression};
use std::io::Write;
use widevin::{
    check_trailer, decode_connect_frames, decompress_gzip, encode_connect_frame, read_connect_trailer_error,
    ConnectFrameDecoder, DevinError, CONNECT_COMPRESSED_FLAG, CONNECT_END_STREAM_FLAG, MAX_CONNECT_FRAME_PAYLOAD,
};

#[test]
fn compressed_frames_decode_across_partial_chunks() {
    let frame = encode_connect_frame(b"hello", true, false).expect("encode");
    assert_eq!(frame[0], CONNECT_COMPRESSED_FLAG);
    let chunks = vec![Ok(frame[..3].to_vec()), Ok(frame[3..].to_vec())];
    let decoded = decode_connect_frames(chunks).into_iter().collect::<Result<Vec<_>, _>>().expect("decode");
    assert_eq!(decoded[0].payload, b"hello");
}

#[test]
fn trailers_gzip_and_malformed_streams_are_handled() {
    let mut encoder = GzEncoder::new(Vec::new(), Compression::default());
    encoder.write_all(br#"{"error":{"code":"x","message":"bad"}}"#).expect("gzip write");
    let payload = encoder.finish().expect("gzip finish");
    let trailer = encode_connect_frame(&payload, false, true).expect("frame");
    let trailer = [vec![CONNECT_COMPRESSED_FLAG | CONNECT_END_STREAM_FLAG], trailer[1..].to_vec()].concat();
    let frames = decode_connect_frames(vec![Ok(trailer)]);
    let frame = frames[0].as_ref().expect("decode trailer");
    assert!(frame.end_stream);
    assert_eq!(read_connect_trailer_error(&frame.payload).as_deref(), Some("Devin stream error x: bad"));

    let partial = decode_connect_frames(vec![Ok(vec![0, 0])]);
    assert!(matches!(partial.last(), Some(Err(DevinError::Protocol { .. }))));

    let overlarge = [
        vec![0],
        u32::try_from(MAX_CONNECT_FRAME_PAYLOAD + 1).expect("frame cap fits u32").to_be_bytes().to_vec(),
    ]
    .concat();
    let frames = decode_connect_frames(vec![Ok(overlarge)]);
    assert!(matches!(frames.last(), Some(Err(DevinError::Protocol { .. }))));
}

#[test]
fn frame_layout_is_flags_length_body() {
    assert_eq!(encode_connect_frame(b"ab", false, false).expect("frame"), vec![0, 0, 0, 0, 2, b'a', b'b']);
    assert_eq!(encode_connect_frame(b"", false, true).expect("frame"), vec![2, 0, 0, 0, 0]);
    let compressed = encode_connect_frame(b"abc", true, true).expect("frame");
    assert_eq!(compressed[0], 3);
    let length = u32::from_be_bytes([compressed[1], compressed[2], compressed[3], compressed[4]]) as usize;
    assert_eq!(length, compressed.len() - 5);
    assert_eq!(decompress_gzip(&compressed[5..]).expect("gunzip"), b"abc");
}

#[test]
fn decoding_ignores_chunk_boundaries() {
    let mut bytes = encode_connect_frame(b"one", false, false).expect("frame");
    bytes.extend(encode_connect_frame(b"two", true, false).expect("frame"));
    bytes.extend(encode_connect_frame(b"{}", false, true).expect("frame"));
    let whole = decode_connect_frames(vec![Ok(bytes.clone())]);
    for cut in 0..=bytes.len() {
        let split = decode_connect_frames(vec![Ok(bytes[..cut].to_vec()), Ok(bytes[cut..].to_vec())]);
        assert_eq!(split, whole);
    }
    let payloads = whole.iter().map(|f| f.as_ref().expect("frame").payload.clone()).collect::<Vec<_>>();
    assert_eq!(payloads, vec![b"one".to_vec(), b"two".to_vec(), b"{}".to_vec()]);
    assert!(whole[2].as_ref().expect("frame").end_stream);
}

#[test]
fn failed_chunks_and_bad_gzip_stop_decoding() {
    let frame = encode_connect_frame(b"ok", false, false).expect("frame");
    let out = decode_connect_frames(vec![
        Ok(frame.clone()),
        Err(DevinError::api_transport("reset".into())),
        Ok(frame.clone()),
    ]);
    assert_eq!(out.len(), 2);
    assert_eq!(out[1], Err(DevinError::api_transport("reset".into())));

    let bad = [vec![CONNECT_COMPRESSED_FLAG, 0, 0, 0, 3], b"xyz".to_vec()].concat();
    let out = decode_connect_frames(vec![Ok(frame), Ok(bad)]);
    assert_eq!(out.len(), 2);
    assert!(matches!(&out[1], Err(DevinError::Protocol { message }) if message.starts_with("failed to gunzip Connect frame: ")));

    let mut decoder = ConnectFrameDecoder::new();
    let (frames, failure) = decoder.push_chunk(&[0, 0, 0]);
    assert!(frames.is_empty() && failure.is_none());
    assert!(decoder.finish().is_some());
    let (frames, failure) = decoder.push_chunk(&[0, 0]);
    assert_eq!(frames.len(), 1);
    assert!(failure.is_none());
    assert!(decoder.finish().is_none());
}

#[test]
fn trailer_errors_need_a_code_or_message() {
    assert_eq!(read_connect_trailer_error(b"{}"), None);
    assert_eq!(read_connect_trailer_error(b"not json"), None);
    assert_eq!(read_connect_trailer_error(br#"{"error":{}}"#), None);
    assert_eq!(read_connect_trailer_error(br#" {"error":{"message":"bad"}} "#).as_deref(), Some("Devin stream error: bad"));
    assert_eq!(read_connect_trailer_error(br#"{"error":{"code":"x"}}"#).as_deref(), Some("Devin stream error x: "));
    assert_eq!(check_trailer(b"{}"), Ok(()));
    assert_eq!(
        check_trailer(br#"{"error":{"code":"x","message":"bad"}}"#),
        Err(DevinError::protocol("Devin stream error x: bad".into()))
    );
}
