//! The wire codec: framing, restartability, and the frame round trip.

use pesticide::codec::{encode_frame, find_delim, DapCodec, DapCodecError};

#[test]
fn encode_frame_exact_bytes() {
    let frame = encode_frame(b"{}");
    assert_eq!(frame, b"Content-Length: 2\r\n\r\n{}".to_vec());
    let empty = encode_frame(b"");
    assert_eq!(empty, b"Content-Length: 0\r\n\r\n".to_vec());
}

#[test]
fn framing_boundary_two_frames_one_feed() {
    let mut codec = DapCodec::new();
    codec.feed(b"Content-Length: 2\r\n\r\n{}Content-Length: 2\r\n\r\n[]");
    assert_eq!(codec.decode().unwrap(), Some(b"{}".to_vec()));
    assert_eq!(codec.decode().unwrap(), Some(b"[]".to_vec()));
    assert_eq!(codec.decode().unwrap(), None);
}

#[test]
fn framing_boundary_split_arbitrarily() {
    let stream = b"Content-Length: 2\r\n\r\n{}Content-Length: 2\r\n\r\n[]";
    // Every split position must yield the same two frames.
    for cut in 0..=stream.len() {
        let mut codec = DapCodec::new();
        let mut frames: Vec<Vec<u8>> = Vec::new();
        codec.feed(&stream[..cut]);
        while let Ok(Some(body)) = codec.decode() {
            frames.push(body);
        }
        codec.feed(&stream[cut..]);
        while let Ok(Some(body)) = codec.decode() {
            frames.push(body);
        }
        assert_eq!(frames, vec![b"{}".to_vec(), b"[]".to_vec()], "split at {cut}");
    }
    // Byte-by-byte arrival too.
    let mut codec = DapCodec::new();
    let mut frames: Vec<Vec<u8>> = Vec::new();
    for b in stream.iter() {
        codec.feed(&[*b]);
        while let Ok(Some(body)) = codec.decode() {
            frames.push(body);
        }
    }
    assert_eq!(frames, vec![b"{}".to_vec(), b"[]".to_vec()]);
}

#[test]
fn round_trip_through_encode() {
    let body = b"{\"seq\":1,\"type\":\"event\"}";
    let frame = encode_frame(body);
    let mut codec = DapCodec::new();
    codec.feed(&frame);
    assert_eq!(codec.decode().unwrap(), Some(body.to_vec()));
    assert_eq!(codec.decode().unwrap(), None);
}

#[test]
fn json_round_trip_byte_equivalent() {
    // decode(encode(m)) re-serializes to the same JSON bytes.
    let mut obj = serde_json::Map::new();
    obj.insert("seq".to_string(), serde_json::Value::from(153u32));
    obj.insert("type".to_string(), serde_json::Value::from("request"));
    obj.insert("command".to_string(), serde_json::Value::from("next"));
    let value = serde_json::Value::Object(obj);
    let bytes = serde_json::to_vec(&value).unwrap();
    let frame = encode_frame(&bytes);
    let mut codec = DapCodec::new();
    codec.feed(&frame);
    let body = codec.decode().unwrap().unwrap();
    let back: serde_json::Value = serde_json::from_slice(&body).unwrap();
    assert_eq!(serde_json::to_vec(&back).unwrap(), bytes);
    assert_eq!(back, value);
}

#[test]
fn header_name_case_insensitive() {
    let mut codec = DapCodec::new();
    codec.feed(b"cOnTeNt-LeNgTh: 5\r\n\r\nhello");
    assert_eq!(codec.decode().unwrap(), Some(b"hello".to_vec()));
}

#[test]
fn other_headers_ignored() {
    let mut codec = DapCodec::new();
    codec.feed(b"X-Other: yes\r\nContent-Length: 2\r\n\r\nok");
    assert_eq!(codec.decode().unwrap(), Some(b"ok".to_vec()));
}

#[test]
fn header_without_colon_is_malformed() {
    let mut codec = DapCodec::new();
    codec.feed(b"Oops\r\nContent-Length: 2\r\n\r\nok");
    assert_eq!(codec.decode(), Err(DapCodecError::MalformedHeader));
    // Recoverable: decoding continues past the bad line.
    assert_eq!(codec.decode().unwrap(), Some(b"ok".to_vec()));
}

#[test]
fn missing_content_length_is_malformed() {
    let mut codec = DapCodec::new();
    codec.feed(b"\r\n");
    assert_eq!(codec.decode(), Err(DapCodecError::MalformedHeader));
}

#[test]
fn bad_length_value_is_malformed() {
    let mut codec = DapCodec::new();
    codec.feed(b"Content-Length: x2\r\n\r\n{}");
    assert_eq!(codec.decode(), Err(DapCodecError::MalformedHeader));
}

#[test]
fn partial_body_waits_for_more() {
    let mut codec = DapCodec::new();
    codec.feed(b"Content-Length: 4\r\n\r\nab");
    assert_eq!(codec.decode().unwrap(), None);
    codec.feed(b"cd");
    assert_eq!(codec.decode().unwrap(), Some(b"abcd".to_vec()));
}

#[test]
fn find_delim_positions() {
    assert_eq!(find_delim(b"ab\r\ncd", b'\r', b'\n'), Some(2));
    assert_eq!(find_delim(b"\r\n", b'\r', b'\n'), Some(0));
    assert_eq!(find_delim(b"abcd", b'\r', b'\n'), None);
    assert_eq!(find_delim(b"", b'\r', b'\n'), None);
    assert_eq!(find_delim(b"a: b: c", b':', b' '), Some(1));
}
