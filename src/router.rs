//! Per-connection dispatch: one received frame payload in, the registry
//! updated and the frames to send out.
use crate::codec::{fits_field, or_empty, spec_read_str, Decoder, Encoder};
use crate::commands::{spec_login_body, LoginRequest};
use crate::frame::{frame_wire, message_frame, message_payload, response_frame};
use crate::message::{spec_message_body, CommandMessage};
use crate::registry::{release_model, Users};
use crate::response::{ack, Response, ResponseCode};
use crate::types::{Header, COMMAND_LOGIN, COMMAND_MESSAGE};
use vstd::prelude::*;
use vstd::utf8::encode_utf8;

verus! {

/// Where a connection stands: not yet logged in, or known under a name.
#[derive(Debug)]
pub enum SessionState {
    Anonymous,
    Named(String),
}

/// One connection's dispatch state.
#[derive(Debug)]
pub struct Session {
    pub handle: u64,
    pub state: SessionState,
}

impl View for Session {
    type V = (u64, Option<Seq<char>>);

    open spec fn view(&self) -> (u64, Option<Seq<char>>) {
        (
            self.handle,
            match self.state {
                SessionState::Anonymous => None,
                SessionState::Named(n) => Some(n@),
            },
        )
    }
}

impl Session {
    /// A fresh, anonymous session for the connection with handle `handle`.
    pub fn new(handle: u64) -> (r: Session)
        ensures
            r@ == (handle, None::<Seq<char>>),
    {
        Session { handle, state: SessionState::Anonymous }
    }
}

/// A frame to be written to another connection.
pub struct Forward {
    pub destination: u64,
    pub frame: Vec<u8>,
}

/// What the connection's loop does after a frame: the frame to send back on
/// this connection, the frame to forward, and whether to stop reading.
pub struct Outcome {
    pub reply: Option<Vec<u8>>,
    pub forward: Option<Forward>,
    pub close: bool,
}

/// The model of a dispatch step: session name and registry afterwards, and
/// the outcome.
pub struct StepModel {
    pub name: Option<Seq<char>>,
    pub registry: Map<Seq<char>, u64>,
    pub reply: Option<Seq<u8>>,
    pub forward: Option<(u64, Seq<u8>)>,
    pub close: bool,
}

pub open spec fn outcome_model(o: Outcome, name: Option<Seq<char>>, registry: Map<Seq<char>, u64>) -> StepModel {
    StepModel {
        name,
        registry,
        reply: match o.reply {
            Some(v) => Some(v@),
            None => None,
        },
        forward: match o.forward {
            Some(f) => Some((f.destination, f.frame@)),
            None => None,
        },
        close: o.close,
    }
}

/// The registry once a session that was known as `name` lets go of it.
pub open spec fn released(m: Map<Seq<char>, u64>, name: Option<Seq<char>>, handle: u64) -> Map<
    Seq<char>,
    u64,
> {
    match name {
        Some(n) => release_model(m, n, handle),
        None => m,
    }
}

/// The frame acknowledging request `id` with `code`.
pub open spec fn ack_frame(id: u32, code: ResponseCode) -> Seq<u8> {
    frame_wire(ack(id, code).wire())
}

/// Nothing sent, nothing changed; `close` says whether the loop ends.
pub open spec fn quiet(name: Option<Seq<char>>, m: Map<Seq<char>, u64>, close: bool) -> StepModel {
    StepModel { name, registry: m, reply: None, forward: None, close }
}

/// Dispatch of one frame payload received on the connection with handle
/// `handle`, known as `name`, against the registry `m`.
///
/// An undecodable header or body ends the loop. A login binds the name to this
/// connection (dropping the session's earlier name) and is acknowledged with
/// `Success`, unless the name is bound to another connection: then it is
/// refused with `UserAlreadyLogged` and nothing changes. A message to a bound
/// name is acknowledged with `Success` and forwarded, with correlation id 0,
/// to that name's connection; to an unbound name it is answered with
/// `UserNotFound` and the loop ends. Other command keys are ignored.
pub open spec fn spec_step(
    handle: u64,
    name: Option<Seq<char>>,
    m: Map<Seq<char>, u64>,
    payload: Seq<u8>,
) -> StepModel {
    match Header::spec_decode(payload) {
        Err(_) => quiet(name, m, true),
        Ok((h, n)) => {
            let body = payload.skip(n as int);
            if h.key == COMMAND_LOGIN {
                match spec_login_body(body) {
                    Err(_) => quiet(name, m, true),
                    Ok(((id, user), _)) => if m.contains_key(user) && m[user] != handle {
                        StepModel {
                            reply: Some(ack_frame(id, ResponseCode::UserAlreadyLogged)),
                            ..quiet(name, m, false)
                        }
                    } else {
                        StepModel {
                            name: Some(user),
                            registry: released(m, name, handle).insert(user, handle),
                            reply: Some(ack_frame(id, ResponseCode::Success)),
                            forward: None,
                            close: false,
                        }
                    },
                }
            } else if h.key == COMMAND_MESSAGE {
                match spec_message_body(body) {
                    Err(_) => quiet(name, m, true),
                    Ok((msg, _)) => if m.contains_key(msg.3) {
                        StepModel {
                            reply: Some(ack_frame(msg.0, ResponseCode::Success)),
                            forward: Some(
                                (
                                    m[msg.3],
                                    frame_wire(message_payload((0, msg.1, msg.2, msg.3, msg.4))),
                                ),
                            ),
                            ..quiet(name, m, false)
                        }
                    } else {
                        StepModel {
                            reply: Some(ack_frame(msg.0, ResponseCode::UserNotFound)),
                            ..quiet(name, m, true)
                        }
                    },
                }
            } else {
                quiet(name, m, false)
            }
        },
    }
}


/// A string field read from the wire always fits a field again.
proof fn lemma_read_str_fits(b: Seq<u8>)
    requires
        spec_read_str(b) is Ok,
    ensures
        fits_field(or_empty(spec_read_str(b)->Ok_0.0)),
{
    if let Ok((Some(s), n)) = spec_read_str(b) {
        let sub = b.subrange(2, n as int);
        vstd::utf8::decode_utf8_encode_utf8(sub);
        assert(encode_utf8(s) == sub);
    } else {
        assert(encode_utf8(Seq::<char>::empty()) =~= Seq::<u8>::empty());
    }
}

/// The text fields of a decoded message all fit a field again.
proof fn lemma_message_fits(b: Seq<u8>)
    requires
        spec_message_body(b) is Ok,
    ensures
        fits_field(spec_message_body(b)->Ok_0.0.1),
        fits_field(spec_message_body(b)->Ok_0.0.2),
        fits_field(spec_message_body(b)->Ok_0.0.3),
{
    let n2 = spec_read_str(b.skip(4))->Ok_0.1;
    let n3 = spec_read_str(b.skip(4 + n2 as int))->Ok_0.1;
    lemma_read_str_fits(b.skip(4));
    lemma_read_str_fits(b.skip(4 + n2 as int));
    lemma_read_str_fits(b.skip(4 + n2 + n3 as int));
}

fn closing() -> (r: Outcome)
    ensures
        r.reply is None && r.forward is None && r.close,
{
    Outcome { reply: None, forward: None, close: true }
}

/// Handles one frame payload received on `session`'s connection: updates the
/// session and the registry, and says what to send and whether to go on.
pub fn handle_frame(session: &mut Session, users: &mut Users, payload: &[u8]) -> (r: Outcome)
    ensures
        final(session).handle == old(session).handle,
        outcome_model(r, final(session)@.1, final(users)@) == spec_step(
            old(session).handle,
            old(session)@.1,
            old(users)@,
            payload@,
        ),
{
    let (body, header) = match Header::decode(payload) {
        Ok(p) => p,
        Err(_) => return closing(),
    };
    if header.key == COMMAND_LOGIN {
        let (_, login) = match LoginRequest::decode(body) {
            Ok(p) => p,
            Err(_) => return closing(),
        };
        let holder = users.lookup(login.user_name.as_str());
        let taken = match holder {
            Some(h) => h != session.handle,
            None => false,
        };
        if taken {
            let reply = response_frame(&Response::ack(login.correlation_id, ResponseCode::UserAlreadyLogged));
            return Outcome { reply: Some(reply), forward: None, close: false };
        }
        disconnect(session, users);
        users.insert(login.user_name.clone(), session.handle);
        session.state = SessionState::Named(login.user_name);
        let reply = response_frame(&Response::ack(login.correlation_id, ResponseCode::Success));
        Outcome { reply: Some(reply), forward: None, close: false }
    } else if header.key == COMMAND_MESSAGE {
        let (_, msg) = match CommandMessage::decode(body) {
            Ok(p) => p,
            Err(_) => return closing(),
        };
        proof {
            lemma_message_fits(body@);
        }
        match users.lookup(msg.to.as_str()) {
            None => {
                let reply = response_frame(&Response::ack(msg.correlation_id, ResponseCode::UserNotFound));
                Outcome { reply: Some(reply), forward: None, close: true }
            },
            Some(destination) => {
                let reply = response_frame(&Response::ack(msg.correlation_id, ResponseCode::Success));
                let forwarded = CommandMessage::new(0, msg.message, msg.from, msg.to, msg.time);
                match message_frame(&forwarded) {
                    Ok(frame) => Outcome {
                        reply: Some(reply),
                        forward: Some(Forward { destination, frame }),
                        close: false,
                    },
                    Err(_) => closing(),
                }
            },
        }
    } else {
        Outcome { reply: None, forward: None, close: false }
    }
}

/// Lets go of the session's name when its connection ends: the name is
/// unbound unless another connection has taken it over since.
pub fn disconnect(session: &Session, users: &mut Users)
    ensures
        final(users)@ == released(old(users)@, session@.1, session.handle),
{
    match &session.state {
        SessionState::Named(name) => users.release(name.as_str(), session.handle),
        SessionState::Anonymous => {},
    }
}

} // verus!
