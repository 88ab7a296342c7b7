use nymshare_core::codec::{read_field, read_str_field, read_u32_field, write_field,
    write_str_field, write_u32_field};
use nymshare_core::message::{decode_message, encode_message, Message};

fn lp(payload: &[u8]) -> Vec<u8> {
    let n = payload.len() as u32;
    let mut out = vec![
        (n % 256) as u8,
        ((n / 256) % 256) as u8,
        ((n / 65536) % 256) as u8,
        ((n / 16777216) % 256) as u8,
    ];
    out.extend_from_slice(payload);
    out
}

#[test]
fn field_round_trip() {
    let mut buf: Vec<u8> = Vec::new();
    write_field(&mut buf, b"hello");
    write_field(&mut buf, b"");
    write_field(&mut buf, &[0u8, 255, 7]);
    let mut pos: usize = 0;
    assert_eq!(read_field(&buf, &mut pos), Some(b"hello".to_vec()));
    assert_eq!(read_field(&buf, &mut pos), Some(Vec::new()));
    assert_eq!(read_field(&buf, &mut pos), Some(vec![0u8, 255, 7]));
    assert_eq!(read_field(&buf, &mut pos), None);
    assert_eq!(pos, buf.len());
}

#[test]
fn str_field_round_trip() {
    let mut buf: Vec<u8> = Vec::new();
    write_str_field(&mut buf, "FILE_REQUEST");
    write_str_field(&mut buf, "r1");
    write_str_field(&mut buf, "a.txt");
    let mut pos: usize = 0;
    assert_eq!(read_str_field(&buf, &mut pos).as_deref(), Some("FILE_REQUEST"));
    assert_eq!(read_str_field(&buf, &mut pos).as_deref(), Some("r1"));
    assert_eq!(read_str_field(&buf, &mut pos).as_deref(), Some("a.txt"));
    assert_eq!(read_str_field(&buf, &mut pos), None);
}

#[test]
fn str_field_rejects_bad_utf8_and_restores_cursor() {
    let buf = lp(&[0xff, 0xfe]);
    let mut pos: usize = 0;
    assert_eq!(read_str_field(&buf, &mut pos), None);
    assert_eq!(pos, 0);
    assert_eq!(read_field(&buf, &mut pos), Some(vec![0xff, 0xfe]));
}

#[test]
fn u32_field_round_trip() {
    let mut buf: Vec<u8> = Vec::new();
    write_u32_field(&mut buf, 0);
    write_u32_field(&mut buf, 70000);
    write_u32_field(&mut buf, u32::MAX);
    let mut pos: usize = 0;
    assert_eq!(read_u32_field(&buf, &mut pos), Some(0));
    assert_eq!(read_u32_field(&buf, &mut pos), Some(70000));
    assert_eq!(read_u32_field(&buf, &mut pos), Some(u32::MAX));
}

#[test]
fn u32_field_rejects_wrong_width() {
    let buf = lp(b"abc");
    let mut pos: usize = 0;
    assert_eq!(read_u32_field(&buf, &mut pos), None);
    assert_eq!(pos, 0);
}

#[test]
fn truncated_field_is_rejected() {
    // A prefix announcing six payload bytes, but only three present.
    let mut buf = vec![6u8, 0, 0, 0];
    buf.extend_from_slice(b"abc");
    let mut pos: usize = 0;
    assert_eq!(read_field(&buf, &mut pos), None);
    assert_eq!(pos, 0);
}

#[test]
fn round_trip_file_request() {
    let m = Message::FileRequest { request_id: "r1".to_string(), filename: "a.txt".to_string() };
    let frame = encode_message(&m);
    // The frame is the tag field, then the fields in order.
    let mut pos: usize = 0;
    assert_eq!(read_str_field(&frame, &mut pos).as_deref(), Some("FILE_REQUEST"));
    assert_eq!(read_str_field(&frame, &mut pos).as_deref(), Some("r1"));
    assert_eq!(read_str_field(&frame, &mut pos).as_deref(), Some("a.txt"));
    assert_eq!(pos, frame.len());
    assert_eq!(decode_message(&frame), Ok(m));
}

#[test]
fn round_trip_ack_file_request() {
    let m = Message::AckFileRequest { request_id: "id-77".to_string() };
    assert_eq!(decode_message(&encode_message(&m)), Ok(m));
}

#[test]
fn round_trip_getfile() {
    let m = Message::GetFile { request_id: "id1".to_string(), contents: vec![0, 1, 2, 255, 0] };
    assert_eq!(decode_message(&encode_message(&m)), Ok(m));
}

#[test]
fn round_trip_advertise() {
    let m = Message::Advertise { request_id: "id4".to_string() };
    assert_eq!(decode_message(&encode_message(&m)), Ok(m));
}

#[test]
fn round_trip_ack_advertise_request() {
    let m = Message::AckAdvertiseRequest { request_id: "id4".to_string() };
    assert_eq!(decode_message(&encode_message(&m)), Ok(m));
}

#[test]
fn round_trip_getadvertise() {
    let m = Message::GetAdvertise {
        request_id: "id4".to_string(),
        names: vec!["x.txt".to_string(), "y.txt".to_string()],
    };
    assert_eq!(decode_message(&encode_message(&m)), Ok(m));
}

#[test]
fn round_trip_getadvertise_empty_list() {
    let m = Message::GetAdvertise { request_id: "id9".to_string(), names: Vec::new() };
    assert_eq!(decode_message(&encode_message(&m)), Ok(m));
}

#[test]
fn unknown_tag_decodes_to_unrecognized() {
    let mut frame: Vec<u8> = Vec::new();
    write_str_field(&mut frame, "HELLO_WORLD");
    assert_eq!(
        decode_message(&frame),
        Ok(Message::Unrecognized { command: "HELLO_WORLD".to_string() })
    );
}

#[test]
fn empty_buffer_is_malformed() {
    assert!(decode_message(&Vec::new()).is_err());
}

#[test]
fn missing_fields_are_malformed() {
    // FILE_REQUEST with an id but no filename.
    let mut frame: Vec<u8> = Vec::new();
    write_str_field(&mut frame, "FILE_REQUEST");
    write_str_field(&mut frame, "r1");
    assert!(decode_message(&frame).is_err());

    // GETFILE with no payload field.
    let mut frame: Vec<u8> = Vec::new();
    write_str_field(&mut frame, "GETFILE");
    write_str_field(&mut frame, "r1");
    assert!(decode_message(&frame).is_err());

    // A bare ACK tag with no id.
    let mut frame: Vec<u8> = Vec::new();
    write_str_field(&mut frame, "ACK_FILE_REQUEST");
    assert!(decode_message(&frame).is_err());
}

#[test]
fn getadvertise_short_name_list_is_malformed() {
    let mut frame: Vec<u8> = Vec::new();
    write_str_field(&mut frame, "GETADVERTISE");
    write_str_field(&mut frame, "id4");
    write_u32_field(&mut frame, 2);
    write_str_field(&mut frame, "only-one.txt");
    assert!(decode_message(&frame).is_err());
}

#[test]
fn non_utf8_command_is_malformed() {
    let frame = lp(&[0xff, 0xfe, 0xfd]);
    assert!(decode_message(&frame).is_err());
}

#[test]
fn trailing_bytes_are_ignored() {
    let m = Message::AckFileRequest { request_id: "r2".to_string() };
    let mut frame = encode_message(&m);
    frame.extend_from_slice(b"junk");
    assert_eq!(decode_message(&frame), Ok(m));
}

#[test]
fn non_ascii_text_survives_the_round_trip() {
    // The filename's UTF-8 encoding is longer than its character count,
    // so a decoder that handed bytes back unchanged would not match.
    let m = Message::FileRequest {
        request_id: "r-éîü".to_string(),
        filename: "snow\u{2603}\u{00e9}.txt".to_string(),
    };
    let frame = encode_message(&m);
    assert_eq!(decode_message(&frame), Ok(m));

    let mut buf: Vec<u8> = Vec::new();
    write_str_field(&mut buf, "\u{00e9}\u{2603}");
    let mut pos: usize = 0;
    assert_eq!(read_str_field(&buf, &mut pos).as_deref(), Some("\u{00e9}\u{2603}"));
    // Two characters, five UTF-8 bytes behind the four-byte prefix.
    assert_eq!(buf.len(), 4 + 5);
}

#[test]
fn empty_strings_are_carried_faithfully() {
    let m = Message::FileRequest { request_id: "".to_string(), filename: "".to_string() };
    assert_eq!(decode_message(&encode_message(&m)), Ok(m));
}
