use relay::codec::{
    check_len, read_str, read_u16, read_u32, read_u64, write_str, DecodeError, Decoder,
    EncodeError, Encoder, IncompleteError,
};
use relay::commands::{Command, Login, LoginRequest};
use relay::frame::{message_frame, read_frame, response_frame, write_frame};
use relay::message::CommandMessage;
use relay::response::{LoginResponse, Response, ResponseCode, ResponseKind};
use relay::types::{Header, COMMAND_LOGIN, COMMAND_MESSAGE, GENERIC_RESPONSE, PROTOCOL_VERSION};

fn encoded<E: Encoder>(x: &E) -> Vec<u8> {
    let mut out = Vec::new();
    x.encode(&mut out).unwrap();
    out
}

fn longest() -> String {
    "x".repeat(32767)
}

#[test]
fn integers_are_big_endian() {
    let mut out = Vec::new();
    0x0102u16.encode(&mut out).unwrap();
    0x03040506u32.encode(&mut out).unwrap();
    0x0708090a0b0c0d0eu64.encode(&mut out).unwrap();
    assert_eq!(out, vec![1, 2, 3, 4, 5, 6, 7, 8, 9, 10, 11, 12, 13, 14]);
    let (rest, a) = read_u16(&out).unwrap();
    let (rest, b) = read_u32(rest).unwrap();
    let (rest, c) = read_u64(rest).unwrap();
    assert_eq!((a, b, c), (0x0102, 0x03040506, 0x0708090a0b0c0d0e));
    assert!(rest.is_empty());
}

#[test]
fn short_integer_reads_are_incomplete() {
    assert_eq!(read_u32(&[1, 2, 3]).unwrap_err(), IncompleteError(4));
    assert_eq!(read_u64(&[0; 7]).unwrap_err(), IncompleteError(8));
    assert_eq!(check_len(&[1, 2], 3).unwrap_err(), IncompleteError(3));
    assert!(check_len(&[1, 2, 3], 3).is_ok());
    assert_eq!(u32::decode(&[1]).unwrap_err(), DecodeError::Incomplete(IncompleteError(4)));
}

#[test]
fn string_field_layout() {
    let mut out = Vec::new();
    write_str(&mut out, "héllo").unwrap();
    assert_eq!(out, vec![0, 6, b'h', 0xc3, 0xa9, b'l', b'l', b'o']);
    let (rest, s) = read_str(&out).unwrap();
    assert_eq!(s.as_deref(), Some("héllo"));
    assert!(rest.is_empty());
}

#[test]
fn empty_string_field_reads_as_absent() {
    let mut out = Vec::new();
    write_str(&mut out, "").unwrap();
    assert_eq!(out, vec![0, 0]);
    assert_eq!(read_str(&out).unwrap().1, None);
}

#[test]
fn string_field_errors() {
    assert_eq!(read_str(&[0]).unwrap_err(), DecodeError::Incomplete(IncompleteError(2)));
    assert_eq!(read_str(&[0, 3, b'a']).unwrap_err(), DecodeError::Incomplete(IncompleteError(3)));
    assert_eq!(read_str(&[0, 2, 0xff, 0xfe]).unwrap_err(), DecodeError::Utf8Error);
    assert_eq!(read_str(&[0xff, 0xff]).unwrap_err(), DecodeError::MismatchSize(0xffff));
}

#[test]
fn oversized_string_is_refused() {
    let mut out = vec![9u8];
    let s = "y".repeat(32768);
    assert_eq!(write_str(&mut out, &s).unwrap_err(), EncodeError::MaxSizeError(32768));
    assert_eq!(out, vec![9u8]);
    let req = LoginRequest::new(1, s);
    assert_eq!(req.encode(&mut out).unwrap_err(), EncodeError::MaxSizeError(32768));
    assert_eq!(out, vec![9u8]);
}

#[test]
fn header_round_trip() {
    let h = Header::new(PROTOCOL_VERSION, COMMAND_MESSAGE);
    let bytes = encoded(&h);
    assert_eq!(bytes, vec![1, 0, 2]);
    assert_eq!(h.encoded_size() as usize, bytes.len());
    let (rest, back) = Header::decode(&bytes).unwrap();
    assert_eq!(back, h);
    assert_eq!((back.version(), back.key()), (1, 2));
    assert!(rest.is_empty());
    assert_eq!(Header::decode(&[1, 0]).unwrap_err(), DecodeError::Incomplete(IncompleteError(3)));
}

#[test]
fn login_request_round_trip() {
    for (id, name) in [(0u32, String::new()), (u32::MAX, "alice".to_string()), (7, longest())] {
        let req = LoginRequest::new(id, name.clone());
        let bytes = encoded(&req);
        assert_eq!(req.encoded_size() as usize, bytes.len());
        let (rest, back) = LoginRequest::decode(&bytes).unwrap();
        assert_eq!(back, req);
        assert!(rest.is_empty());
        let (_, old) = Login::decode(&bytes).unwrap();
        assert_eq!(old.user_name, name);
        assert_eq!(encoded(&old), bytes);
    }
    assert_eq!(LoginRequest::new(1, String::new()).key(), COMMAND_LOGIN);
    assert_eq!(LoginRequest::new(1, String::new()).version(), PROTOCOL_VERSION);
}

#[test]
fn login_request_bytes() {
    let bytes = encoded(&LoginRequest::new(7, "alice".to_string()));
    assert_eq!(bytes, vec![0, 0, 0, 7, 0, 5, b'a', b'l', b'i', b'c', b'e']);
}

#[test]
fn message_round_trip() {
    let cases = [
        (0u32, String::new(), String::new(), "a".to_string(), 0u64),
        (u32::MAX, "hi".to_string(), "bob".to_string(), "alice".to_string(), u64::MAX),
        (9, longest(), longest(), longest(), 12345),
    ];
    for (id, m, f, t, time) in cases {
        let msg = CommandMessage::new(id, m.clone(), f.clone(), t.clone(), time);
        let bytes = encoded(&msg);
        assert_eq!(msg.encoded_size() as usize, bytes.len());
        let (rest, back) = CommandMessage::decode(&bytes).unwrap();
        assert!(rest.is_empty());
        assert_eq!((back.correlation_id, back.message, back.from, back.to, back.time), (id, m, f, t, time));
    }
    assert_eq!(CommandMessage::new(1, String::new(), String::new(), "a".to_string(), 2).key(), COMMAND_MESSAGE);
}

#[test]
fn message_without_addressee_is_refused() {
    let msg = CommandMessage::new(3, "hi".to_string(), "bob".to_string(), String::new(), 1);
    let bytes = encoded(&msg);
    assert_eq!(CommandMessage::decode(&bytes).unwrap_err(), DecodeError::Empty);
}

#[test]
fn response_round_trip() {
    for code in [ResponseCode::Success, ResponseCode::UserNotFound, ResponseCode::UserAlreadyLogged] {
        for id in [0u32, 9, u32::MAX] {
            let r = Response::ack(id, code);
            let bytes = encoded(&r);
            assert_eq!(r.encoded_size() as usize, bytes.len());
            assert_eq!(bytes.len(), 9);
            let (rest, back) = Response::decode(&bytes).unwrap();
            assert_eq!(back, r);
            assert!(rest.is_empty());
            assert_eq!(back.correlation_id(), Some(id));
            assert_eq!(back.response_code(), Some(code.to_u16()));
        }
    }
}

#[test]
fn response_code_values() {
    assert_eq!(ResponseCode::Success.to_u16(), 1);
    assert_eq!(ResponseCode::UserNotFound.to_u16(), 2);
    assert_eq!(ResponseCode::UserAlreadyLogged.to_u16(), 3);
    assert_eq!(ResponseCode::from_u16(2).unwrap(), ResponseCode::UserNotFound);
    assert_eq!(ResponseCode::from_u16(7).unwrap_err(), DecodeError::UnknownResponseCode(7));
    assert_eq!(ResponseCode::decode(&[0, 0]).unwrap_err(), DecodeError::UnknownResponseCode(0));
    assert!(LoginResponse::new(1, ResponseCode::Success).is_ok());
    assert!(!LoginResponse::new(1, ResponseCode::UserNotFound).is_ok());
}

#[test]
fn response_with_other_key_is_refused() {
    let r = Response::new(
        Header::new(PROTOCOL_VERSION, COMMAND_LOGIN),
        ResponseKind::Login(LoginResponse::new(1, ResponseCode::Success)),
    );
    let bytes = encoded(&r);
    assert_eq!(Response::decode(&bytes).unwrap_err(), DecodeError::UnsupportedResponseType(COMMAND_LOGIN));
    assert_eq!(
        encoded(&Response::ack(7, ResponseCode::Success)),
        vec![1, 0, GENERIC_RESPONSE as u8, 0, 0, 0, 7, 0, 1]
    );
}

#[test]
fn frame_round_trip() {
    for size in [0usize, 1, 5000] {
        let payload: Vec<u8> = (0..size).map(|i| (i % 251) as u8).collect();
        let frame = write_frame(&payload).unwrap();
        assert_eq!(frame.len(), size + 4);
        assert_eq!(&frame[..4], &(size as u32).to_be_bytes());
        let (rest, back) = read_frame(&frame).unwrap();
        assert_eq!(back, payload.as_slice());
        assert!(rest.is_empty());
    }
}

#[test]
fn frame_cut_short_is_incomplete() {
    let mut frame = write_frame(&[1, 2, 3, 4, 5]).unwrap();
    frame.truncate(7);
    assert_eq!(read_frame(&frame).unwrap_err(), DecodeError::Incomplete(IncompleteError(5)));
    assert_eq!(read_frame(&[0, 0]).unwrap_err(), DecodeError::Incomplete(IncompleteError(4)));
    let huge = [0xff, 0xff, 0xff, 0xff, 1, 2];
    assert_eq!(read_frame(&huge).unwrap_err(), DecodeError::Incomplete(IncompleteError(0xffff_ffff)));
}

#[test]
fn message_and_response_frames() {
    let msg = CommandMessage::new(0, "hi".to_string(), "bob".to_string(), "alice".to_string(), 5);
    let frame = message_frame(&msg).unwrap();
    let (_, payload) = read_frame(&frame).unwrap();
    let (body, header) = Header::decode(payload).unwrap();
    assert_eq!(header, Header::new(PROTOCOL_VERSION, COMMAND_MESSAGE));
    let (_, back) = CommandMessage::decode(body).unwrap();
    assert_eq!(back.to, "alice");
    let frame = response_frame(&Response::ack(3, ResponseCode::UserNotFound));
    assert_eq!(frame, vec![0, 0, 0, 9, 1, 0, 3, 0, 0, 0, 3, 0, 2]);
}
