//! The stub, base64 and the frames.
use sqlite_broker::base64::{decode_base64, encode_base64};
use sqlite_broker::frame::{body_len, frame_error, read_msg, write_msg, FrameError, MAX_BODY};
use sqlite_broker::protocol::{Cell, Real};
use sqlite_broker::stub::{format_stub, parse_stub};

#[test]
fn stub_roundtrip_rejects_sqlite_header() {
    let encoded = format_stub("127.0.0.1:9");
    assert_eq!(
        parse_stub(encoded.as_bytes()).as_deref(),
        Some("127.0.0.1:9")
    );
    assert!(parse_stub(b"SQLite format 3\0").is_none());
}

#[test]
fn stub_parser_sees_magic() {
    assert!(parse_stub(b"SQLITEBROKER1\n127.0.0.1:1\n").is_some());
}

#[test]
fn stub_text_is_exact() {
    assert_eq!(format_stub("broker:7432"), "SQLITEBROKER1\nbroker:7432\n");
}

#[test]
fn stub_takes_a_padded_address_and_windows_lines() {
    assert_eq!(
        parse_stub(b"SQLITEBROKER1\r\n  host:1  \r\nrest").as_deref(),
        Some("host:1")
    );
}

#[test]
fn stub_refuses_what_is_none() {
    assert!(parse_stub(b"").is_none());
    assert!(parse_stub(b"SQLITEBROKER1").is_none());
    assert!(parse_stub(b"SQLITEBROKER1\n\n").is_none());
    assert!(parse_stub(b"SQLITEBROKER1\na b\n").is_none());
    assert!(parse_stub(b"SQLITEBROKER2\nhost:1\n").is_none());
    assert!(parse_stub(b"SQLITEBROKER1\nhost\xff:1\n").is_none());
}

#[test]
fn base64_roundtrip_includes_nul() {
    let raw = b"\x00\x01hi";
    let encoded = encode_base64(raw);
    assert_eq!(decode_base64(&encoded).unwrap(), raw);
    assert_eq!(decode_base64("").unwrap(), b"");
}

#[test]
fn base64_texts_are_exact() {
    assert_eq!(encode_base64(b""), "");
    assert_eq!(encode_base64(b"f"), "Zg==");
    assert_eq!(encode_base64(b"fo"), "Zm8=");
    assert_eq!(encode_base64(b"foo"), "Zm9v");
    assert_eq!(encode_base64(b"foobar"), "Zm9vYmFy");
    assert_eq!(encode_base64(&[0xfb, 0xff, 0xfe]), "+//+");
    assert_eq!(encode_base64(&[0x00, 0x01, 0xff]), "AAH/");
}

#[test]
fn base64_refuses_what_is_none() {
    assert!(decode_base64("Zg=").is_err());
    assert!(decode_base64("Zg").is_err());
    assert!(decode_base64("Z===").is_err());
    assert!(decode_base64("Zg=v").is_err());
    assert!(decode_base64("Zm9*").is_err());
    assert!(decode_base64("====").is_err());
}

#[test]
fn base64_takes_groups_that_were_padded_each() {
    assert_eq!(decode_base64("Zg==Zm8=").unwrap(), b"ffo");
}

#[test]
fn base64_round_trips_every_byte_and_length() {
    for n in 0..70usize {
        let raw: Vec<u8> = (0..n).map(|i| (i * 37 + n) as u8).collect();
        let text = encode_base64(&raw);
        assert_eq!(text.len(), (n + 2) / 3 * 4);
        assert_eq!(decode_base64(&text).unwrap(), raw);
    }
}

#[test]
fn frame_roundtrip() {
    let mut msg = serde_json::Map::new();
    msg.insert("op".to_string(), serde_json::Value::from("exec"));
    msg.insert("sql".to_string(), serde_json::Value::from("SELECT 1"));
    msg.insert(
        "params".to_string(),
        serde_json::Value::Array(Vec::new()),
    );
    let body = serde_json::to_vec(&serde_json::Value::Object(msg)).unwrap();
    let framed = write_msg(&body).unwrap();
    let (got, used) = read_msg(&framed).unwrap();
    assert_eq!(used, framed.len());
    let got: serde_json::Value = serde_json::from_slice(&got).unwrap();
    assert_eq!(got["op"].as_str(), Some("exec"));
    assert_eq!(got["sql"].as_str(), Some("SELECT 1"));
    assert!(got["params"].as_array().unwrap().is_empty());
}

#[test]
fn frame_bytes_are_exact() {
    assert_eq!(write_msg(b"ab").unwrap(), vec![2, 0, 0, 0, b'a', b'b']);
    assert_eq!(write_msg(b"").unwrap(), vec![0, 0, 0, 0]);
}

#[test]
fn frames_follow_each_other() {
    let mut stream = write_msg(b"one").unwrap();
    stream.extend(write_msg(b"three").unwrap());
    let (first, used) = read_msg(&stream).unwrap();
    assert_eq!(first, b"one");
    let (second, rest) = read_msg(&stream[used..]).unwrap();
    assert_eq!(second, b"three");
    assert_eq!(used + rest, stream.len());
}

#[test]
fn frames_that_are_too_long_are_refused() {
    let long = vec![0u8; MAX_BODY + 1];
    assert!(matches!(
        write_msg(&long),
        Err(FrameError::MessageTooLarge)
    ));
    assert!(write_msg(&long[1..]).is_ok());
    assert!(matches!(
        body_len(&[1, 0, 0, 1]),
        Err(FrameError::FrameTooLarge)
    ));
    assert_eq!(body_len(&[0, 0, 0, 1]).ok(), Some(MAX_BODY));
    assert!(matches!(
        read_msg(&[255, 255, 255, 255, 0]),
        Err(FrameError::FrameTooLarge)
    ));
}

#[test]
fn frames_that_end_early_are_refused() {
    assert!(matches!(read_msg(&[0, 0]), Err(FrameError::UnexpectedEnd)));
    assert!(matches!(
        read_msg(&[2, 0, 0, 0, 1]),
        Err(FrameError::UnexpectedEnd)
    ));
    assert_eq!(
        frame_error(FrameError::UnexpectedEnd),
        "failed to fill whole buffer"
    );
    assert_eq!(frame_error(FrameError::FrameTooLarge), "frame too large");
    assert_eq!(
        frame_error(FrameError::MessageTooLarge),
        "message too large"
    );
}

#[test]
fn cells_are_rendered() {
    assert_eq!(Cell::Null.render(), "");
    assert_eq!(Cell::Int { v: i64::MIN }.render(), "-9223372036854775808");
    let half = Real {
        bits: 0.5f64.to_bits(),
        text: format!("{}", 0.5f64),
        truncated: 0,
    };
    assert_eq!(Cell::Real { v: half }.render(), "0.5");
    assert_eq!(
        Cell::Text {
            v: "text".to_string()
        }
        .render(),
        "text"
    );
    assert_eq!(
        Cell::Blob {
            v: encode_base64(b"hi")
        }
        .render(),
        "hi"
    );
}

#[test]
fn blobs_that_are_no_text_are_rendered_with_replacements() {
    let cell = Cell::Blob {
        v: encode_base64(&[b'a', 0xff, b'b']),
    };
    assert_eq!(cell.render(), "a\u{fffd}b");
    assert_eq!(cell.blob_bytes(), Some(vec![b'a', 0xff, b'b']));
    let broken = Cell::Blob {
        v: "?".to_string(),
    };
    assert_eq!(broken.render(), "");
    assert_eq!(broken.blob_bytes(), None);
    assert_eq!(Cell::Int { v: 1 }.blob_bytes(), None);
}
