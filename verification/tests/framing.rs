use p2p_chat::frame::{
    frame_header, read_framed, write_framed, FrameError, FrameReader, ReadStep, MAX_MSG_LEN,
    MSG_TYPE_FULL, MSG_TYPE_PATCH,
};

fn framed(msg_type: u8, payload: &[u8]) -> Vec<u8> {
    write_framed(msg_type, payload).unwrap()
}

#[test]
fn a_length_that_the_field_cannot_say_has_no_header() {
    assert_eq!(frame_header(7, 0), Some(vec![7, 0, 0, 0, 0]));
    assert_eq!(frame_header(7, 0x0102_0304), Some(vec![7, 1, 2, 3, 4]));
    assert_eq!(frame_header(7, u32::MAX as usize), Some(vec![7, 255, 255, 255, 255]));
    assert_eq!(frame_header(7, u32::MAX as usize + 1), None);
    assert_eq!(frame_header(7, u32::MAX as usize + 6), None);
    assert_eq!(frame_header(7, usize::MAX), None);
}

#[test]
fn a_frame_is_type_length_payload() {
    assert_eq!(write_framed(MSG_TYPE_PATCH, b"abc"), Some(vec![1, 0, 0, 0, 3, b'a', b'b', b'c']));
    assert_eq!(write_framed(MSG_TYPE_FULL, b""), Some(vec![0, 0, 0, 0, 0]));
    assert_eq!(framed(200, &[9; 300])[..5], [200, 0, 0, 1, 44]);
}

#[test]
fn the_length_is_big_endian() {
    let payload = vec![7u8; 0x0102_0304];
    let bytes = framed(0, &payload);
    assert_eq!(bytes[..5], [0, 1, 2, 3, 4]);
    assert_eq!(bytes.len(), 5 + 0x0102_0304);
}

#[test]
fn reading_gives_back_what_was_written() {
    let mut bytes = framed(MSG_TYPE_FULL, "grüße\n".as_bytes());
    bytes.extend_from_slice(b"more");
    let mut stream: &[u8] = &bytes;
    assert_eq!(read_framed(&mut stream), Ok((MSG_TYPE_FULL, "grüße\n".as_bytes().to_vec())));
    assert_eq!(stream, b"more");
}

#[test]
fn frames_are_read_in_order() {
    let mut bytes = framed(0, b"one");
    bytes.extend(framed(1, b""));
    bytes.extend(framed(77, b"three"));
    let mut stream: &[u8] = &bytes;
    assert_eq!(read_framed(&mut stream), Ok((0, b"one".to_vec())));
    assert_eq!(read_framed(&mut stream), Ok((1, vec![])));
    assert_eq!(read_framed(&mut stream), Ok((77, b"three".to_vec())));
    assert_eq!(read_framed(&mut stream), Err(FrameError::UnexpectedEnd));
    assert!(stream.is_empty());
}

#[test]
fn a_cut_frame_is_not_read() {
    let bytes = framed(1, b"payload");
    for n in 0..bytes.len() {
        let mut stream: &[u8] = &bytes[..n];
        assert_eq!(read_framed(&mut stream), Err(FrameError::UnexpectedEnd));
        assert!(stream.is_empty());
    }
}

#[test]
fn a_declared_length_over_the_cap_is_refused() {
    let mut stream: &[u8] = &[0, 0x01, 0x31, 0x2d, 0x01, 5, 6];
    let refused = read_framed(&mut stream).unwrap_err();
    assert_eq!(refused, FrameError::TooLong { len: 20_000_001 });
    assert_eq!(stream, [5, 6]);
    assert_eq!(refused.message(), "declared message length 20000001 exceeds max 20000000");

    let mut largest: &[u8] = &[1, 0xff, 0xff, 0xff, 0xff];
    assert_eq!(read_framed(&mut largest), Err(FrameError::TooLong { len: u32::MAX }));
}

#[test]
fn a_declared_length_at_the_cap_is_accepted() {
    let mut header_only: &[u8] = &[0, 0x01, 0x31, 0x2d, 0x00];
    assert_eq!(read_framed(&mut header_only), Err(FrameError::UnexpectedEnd));

    let payload = vec![b'x'; MAX_MSG_LEN];
    let bytes = framed(0, &payload);
    let mut stream: &[u8] = &bytes;
    assert_eq!(read_framed(&mut stream), Ok((0, payload)));
    assert!(stream.is_empty());
}

#[test]
fn an_over_long_payload_is_written_and_refused() {
    let bytes = framed(0, &vec![b'x'; MAX_MSG_LEN + 1]);
    let mut stream: &[u8] = &bytes;
    assert_eq!(read_framed(&mut stream), Err(FrameError::TooLong { len: 20_000_001 }));
    assert_eq!(stream.len(), MAX_MSG_LEN + 1);
}

#[test]
fn the_end_of_the_stream_has_a_message() {
    assert_eq!(FrameError::UnexpectedEnd.message(), "unexpected end of file");
}

#[test]
fn a_reader_asks_for_type_length_and_payload() {
    let reader = FrameReader::new();
    assert_eq!(reader.wanted(), 1);
    let reader = match reader.advance(vec![1]) {
        ReadStep::More(next) => next,
        other => panic!("{other:?}"),
    };
    assert_eq!(reader, FrameReader::Length { msg_type: 1 });
    assert_eq!(reader.wanted(), 4);
    let reader = match reader.advance(vec![0, 0, 1, 2]) {
        ReadStep::More(next) => next,
        other => panic!("{other:?}"),
    };
    assert_eq!(reader, FrameReader::Payload { msg_type: 1, len: 258 });
    assert_eq!(reader.wanted(), 258);
    match reader.advance(vec![3; 258]) {
        ReadStep::Done(msg_type, payload) => {
            assert_eq!(msg_type, 1);
            assert_eq!(payload, vec![3; 258]);
        }
        other => panic!("{other:?}"),
    }
}

#[test]
fn a_reader_refuses_before_the_payload() {
    let reader = FrameReader::Length { msg_type: 0 };
    match reader.advance(vec![2, 0, 0, 0]) {
        ReadStep::Refused(e) => assert_eq!(e, FrameError::TooLong { len: 33_554_432 }),
        other => panic!("{other:?}"),
    }
}
