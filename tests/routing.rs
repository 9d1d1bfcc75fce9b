use relay::codec::Encoder;
use relay::commands::LoginRequest;
use relay::frame::{read_frame, write_frame};
use relay::message::CommandMessage;
use relay::registry::{TcpServer, User, Users};
use relay::response::{Response, ResponseCode};
use relay::router::{disconnect, handle_frame, Session};
use relay::types::{Header, COMMAND_LOGIN, COMMAND_MESSAGE, PROTOCOL_VERSION};
use relay::codec::Decoder;

fn payload<E: Encoder>(key: u16, body: &E) -> Vec<u8> {
    let mut out = Vec::new();
    Header::new(PROTOCOL_VERSION, key).encode(&mut out).unwrap();
    body.encode(&mut out).unwrap();
    out
}

fn response_of(frame: &[u8]) -> Response {
    let (rest, p) = read_frame(frame).unwrap();
    assert!(rest.is_empty());
    Response::decode(p).unwrap().1
}

fn login(session: &mut Session, users: &mut Users, id: u32, name: &str) -> Response {
    let p = payload(COMMAND_LOGIN, &LoginRequest::new(id, name.to_string()));
    let out = handle_frame(session, users, &p);
    assert!(!out.close);
    assert!(out.forward.is_none());
    response_of(&out.reply.unwrap())
}

#[test]
fn registry_insert_lookup_remove() {
    let mut users = Users::new();
    assert_eq!(users.lookup("alice"), None);
    users.insert("alice".to_string(), 4);
    users.push(User { user_name: "bob".to_string(), handle: 5 });
    assert_eq!(users.lookup("alice"), Some(4));
    assert_eq!(users.lookup("bob"), Some(5));
    users.insert("alice".to_string(), 6);
    assert_eq!(users.lookup("alice"), Some(6));
    users.remove("alice");
    assert_eq!(users.lookup("alice"), None);
    assert_eq!(users.lookup("bob"), Some(5));
    users.remove("alice");
    assert_eq!(users.lookup("alice"), None);
    users.release("bob", 9);
    assert_eq!(users.lookup("bob"), Some(5));
    users.release("bob", 5);
    assert_eq!(users.lookup("bob"), None);
    assert_eq!(TcpServer::new().users.lookup("bob"), None);
}

#[test]
fn login_binds_name_and_acknowledges() {
    let mut users = Users::new();
    let mut s = Session::new(1);
    let r = login(&mut s, &mut users, 7, "alice");
    assert_eq!(r, Response::ack(7, ResponseCode::Success));
    assert_eq!(users.lookup("alice"), Some(1));
}

#[test]
fn message_is_acknowledged_and_forwarded() {
    let mut users = Users::new();
    let mut alice = Session::new(1);
    login(&mut alice, &mut users, 7, "alice");
    let mut bob = Session::new(2);
    let msg = CommandMessage::new(9, "hi".to_string(), "bob".to_string(), "alice".to_string(), 1234);
    let out = handle_frame(&mut bob, &mut users, &payload(COMMAND_MESSAGE, &msg));
    assert!(!out.close);
    assert_eq!(response_of(&out.reply.unwrap()), Response::ack(9, ResponseCode::Success));
    let fwd = out.forward.unwrap();
    assert_eq!(fwd.destination, 1);
    let (_, p) = read_frame(&fwd.frame).unwrap();
    let (body, h) = Header::decode(p).unwrap();
    assert_eq!(h, Header::new(PROTOCOL_VERSION, COMMAND_MESSAGE));
    let (_, m) = CommandMessage::decode(body).unwrap();
    assert_eq!((m.correlation_id, m.message.as_str(), m.from.as_str(), m.to.as_str(), m.time), (0, "hi", "bob", "alice", 1234));
    assert_eq!(users.lookup("bob"), None);
}

#[test]
fn message_to_unknown_user_closes_sender() {
    let mut users = Users::new();
    let mut bob = Session::new(2);
    let msg = CommandMessage::new(11, "hi".to_string(), "bob".to_string(), "carol".to_string(), 1);
    let out = handle_frame(&mut bob, &mut users, &payload(COMMAND_MESSAGE, &msg));
    assert!(out.close);
    assert!(out.forward.is_none());
    assert_eq!(response_of(&out.reply.unwrap()), Response::ack(11, ResponseCode::UserNotFound));
}

#[test]
fn duplicate_login_is_refused() {
    let mut users = Users::new();
    let mut first = Session::new(1);
    let mut second = Session::new(2);
    login(&mut first, &mut users, 1, "alice");
    let r = login(&mut second, &mut users, 2, "alice");
    assert_eq!(r, Response::ack(2, ResponseCode::UserAlreadyLogged));
    assert_eq!(users.lookup("alice"), Some(1));
    let r = login(&mut first, &mut users, 3, "alice");
    assert_eq!(r, Response::ack(3, ResponseCode::Success));
}

#[test]
fn relogin_under_new_name_drops_old_name() {
    let mut users = Users::new();
    let mut s = Session::new(1);
    login(&mut s, &mut users, 1, "alice");
    login(&mut s, &mut users, 2, "alicia");
    assert_eq!(users.lookup("alice"), None);
    assert_eq!(users.lookup("alicia"), Some(1));
    disconnect(&s, &mut users);
    assert_eq!(users.lookup("alicia"), None);
}

#[test]
fn bad_payloads() {
    let mut users = Users::new();
    let mut s = Session::new(1);
    let out = handle_frame(&mut s, &mut users, &[1, 0]);
    assert!(out.close && out.reply.is_none());
    let out = handle_frame(&mut s, &mut users, &[1, 0, 1, 0, 0]);
    assert!(out.close && out.reply.is_none());
    let out = handle_frame(&mut s, &mut users, &[1, 0, 9, 1, 2, 3]);
    assert!(!out.close && out.reply.is_none() && out.forward.is_none());
}

#[test]
fn truncated_frame_affects_only_its_read() {
    let frame = write_frame(&[1, 0, 1, 0, 0, 0, 7, 0, 0]).unwrap();
    let cut = &frame[..frame.len() - 3];
    assert!(read_frame(cut).is_err());
    assert!(read_frame(&frame).is_ok());
}
