//! The response envelope the server sends back for logins and messages.
use crate::codec::{
    be16, be16_value, be32, lemma_be16, lemma_be32, read_u16, spec_read_u32, write_u16, write_u32,
    DecodeError, Decoder, EncodeError, Encoder, IncompleteError,
};
use crate::types::{lemma_header_round_trip, Header, GENERIC_RESPONSE, PROTOCOL_VERSION};
use vstd::prelude::*;

verus! {

/// Outcome reported to a client. Wire values: `Success` 1, `UserNotFound` 2,
/// `UserAlreadyLogged` 3.
#[derive(Clone, Copy, Debug, PartialEq, Eq, Structural)]
pub enum ResponseCode {
    Success,
    UserNotFound,
    UserAlreadyLogged,
}

pub open spec fn code_value(c: ResponseCode) -> u16 {
    match c {
        ResponseCode::Success => 1,
        ResponseCode::UserNotFound => 2,
        ResponseCode::UserAlreadyLogged => 3,
    }
}

/// The code with wire value `v`, if any.
pub open spec fn code_of(v: u16) -> Option<ResponseCode> {
    if v == 1 {
        Some(ResponseCode::Success)
    } else if v == 2 {
        Some(ResponseCode::UserNotFound)
    } else if v == 3 {
        Some(ResponseCode::UserAlreadyLogged)
    } else {
        None
    }
}

impl ResponseCode {
    pub fn to_u16(self) -> (r: u16)
        ensures
            r == code_value(self),
    {
        match self {
            ResponseCode::Success => 1,
            ResponseCode::UserNotFound => 2,
            ResponseCode::UserAlreadyLogged => 3,
        }
    }

    /// The code with wire value `v`; an unknown value is an error, never `Ok`.
    pub fn from_u16(v: u16) -> (r: Result<ResponseCode, DecodeError>)
        ensures
            match code_of(v) {
                Some(c) => r == Ok::<ResponseCode, DecodeError>(c),
                None => r == Err::<ResponseCode, DecodeError>(DecodeError::UnknownResponseCode(v)),
            },
    {
        if v == 1 {
            Ok(ResponseCode::Success)
        } else if v == 2 {
            Ok(ResponseCode::UserNotFound)
        } else if v == 3 {
            Ok(ResponseCode::UserAlreadyLogged)
        } else {
            Err(DecodeError::UnknownResponseCode(v))
        }
    }
}

impl View for ResponseCode {
    type V = ResponseCode;

    open spec fn view(&self) -> ResponseCode {
        *self
    }
}

impl Decoder for ResponseCode {
    open spec fn spec_decode(b: Seq<u8>) -> Result<(ResponseCode, nat), DecodeError> {
        if b.len() < 2 {
            Err(DecodeError::Incomplete(IncompleteError(2)))
        } else {
            match code_of(be16_value(b)) {
                Some(c) => Ok((c, 2)),
                None => Err(DecodeError::UnknownResponseCode(be16_value(b))),
            }
        }
    }

    fn decode(input: &[u8]) -> (r: Result<(&[u8], ResponseCode), DecodeError>) {
        let (rest, v) = match read_u16(input) {
            Ok(p) => p,
            Err(e) => return Err(DecodeError::Incomplete(e)),
        };
        match ResponseCode::from_u16(v) {
            Ok(c) => Ok((rest, c)),
            Err(e) => Err(e),
        }
    }
}

/// Acknowledgement of a request: its correlation id and the outcome.
#[derive(Clone, Copy, Debug, PartialEq, Eq, Structural)]
pub struct LoginResponse {
    pub correlation_id: u32,
    pub response_code: ResponseCode,
}

impl LoginResponse {
    pub fn new(correlation_id: u32, response_code: ResponseCode) -> (r: Self)
        ensures
            r == (LoginResponse { correlation_id, response_code }),
    {
        Self { correlation_id, response_code }
    }

    pub fn is_ok(&self) -> (r: bool)
        ensures
            r == (self.response_code == ResponseCode::Success),
    {
        self.response_code == ResponseCode::Success
    }
}

/// The body of a response, keyed like the requests.
#[derive(Clone, Copy, Debug, PartialEq, Eq, Structural)]
pub enum ResponseKind {
    Login(LoginResponse),
}

/// A response: header and body.
#[derive(Clone, Copy, Debug, PartialEq, Eq, Structural)]
pub struct Response {
    pub header: Header,
    pub kind: ResponseKind,
}

/// The acknowledgement the server sends for a request with id `id`.
pub open spec fn ack(id: u32, code: ResponseCode) -> Response {
    Response {
        header: Header { version: PROTOCOL_VERSION, key: GENERIC_RESPONSE },
        kind: ResponseKind::Login(LoginResponse { correlation_id: id, response_code: code }),
    }
}

impl Response {
    pub fn new(header: Header, kind: ResponseKind) -> (r: Self)
        ensures
            r == (Response { header, kind }),
    {
        Self { header, kind }
    }

    /// The acknowledgement of the request with id `correlation_id`.
    pub fn ack(correlation_id: u32, code: ResponseCode) -> (r: Self)
        ensures
            r == ack(correlation_id, code),
    {
        Self::new(
            Header::new(PROTOCOL_VERSION, GENERIC_RESPONSE),
            ResponseKind::Login(LoginResponse::new(correlation_id, code)),
        )
    }

    pub fn correlation_id(&self) -> (r: Option<u32>)
        ensures
            match self.kind {
                ResponseKind::Login(l) => r == Some(l.correlation_id),
            },
    {
        match &self.kind {
            ResponseKind::Login(login) => Some(login.correlation_id),
        }
    }

    pub fn response_code(&self) -> (r: Option<u16>)
        ensures
            match self.kind {
                ResponseKind::Login(l) => r == Some(code_value(l.response_code)),
            },
    {
        match &self.kind {
            ResponseKind::Login(login) => Some(login.response_code.to_u16()),
        }
    }
}

impl View for Response {
    type V = Response;

    open spec fn view(&self) -> Response {
        *self
    }
}

impl Encoder for Response {
    open spec fn wire(&self) -> Seq<u8> {
        match self.kind {
            ResponseKind::Login(l) => self.header.wire() + be32(l.correlation_id) + be16(
                code_value(l.response_code),
            ),
        }
    }

    open spec fn encodable(&self) -> bool {
        true
    }

    fn encoded_size(&self) -> (r: u32) {
        self.header.encoded_size() + 4 + 2
    }

    fn encode(&self, out: &mut Vec<u8>) -> (r: Result<(), EncodeError>) {
        let _ = self.header.encode(out);
        match &self.kind {
            ResponseKind::Login(login) => {
                write_u32(out, login.correlation_id);
                write_u16(out, login.response_code.to_u16());
            },
        }
        assert(out@ =~= old(out)@ + self.wire());
        Ok(())
    }
}

impl Decoder for Response {
    /// A header whose key is not `GENERIC_RESPONSE` is refused; then the
    /// correlation id and the code follow.
    open spec fn spec_decode(b: Seq<u8>) -> Result<(Response, nat), DecodeError> {
        match Header::spec_decode(b) {
            Err(e) => Err(e),
            Ok((h, n1)) => if h.key != GENERIC_RESPONSE {
                Err(DecodeError::UnsupportedResponseType(h.key))
            } else {
                match spec_read_u32(b.skip(n1 as int)) {
                    Err(e) => Err(e),
                    Ok((id, n2)) => match ResponseCode::spec_decode(b.skip(n1 + n2 as int)) {
                        Err(e) => Err(e),
                        Ok((c, n3)) => Ok(
                            (
                                Response {
                                    header: h,
                                    kind: ResponseKind::Login(
                                        LoginResponse { correlation_id: id, response_code: c },
                                    ),
                                },
                                n1 + n2 + n3,
                            ),
                        ),
                    },
                }
            },
        }
    }

    fn decode(input: &[u8]) -> (r: Result<(&[u8], Response), DecodeError>) {
        let (rest1, header) = match Header::decode(input) {
            Ok(p) => p,
            Err(e) => return Err(e),
        };
        if header.key != GENERIC_RESPONSE {
            return Err(DecodeError::UnsupportedResponseType(header.key));
        }
        let (rest2, id) = match u32::decode(rest1) {
            Ok(p) => p,
            Err(e) => return Err(e),
        };
        assert(rest2@ =~= input@.skip(7));
        let (rest3, code) = match ResponseCode::decode(rest2) {
            Ok(p) => p,
            Err(e) => return Err(e),
        };
        assert(rest3@ =~= input@.skip(9));
        Ok((rest3, Response::new(header, ResponseKind::Login(LoginResponse::new(id, code)))))
    }
}

/// A response read back from its wire form is the same response, provided its
/// header carries the response key.
pub proof fn lemma_response_round_trip(r: Response, rest: Seq<u8>)
    requires
        r.header.key == GENERIC_RESPONSE,
    ensures
        Response::spec_decode(r.wire() + rest) == Ok::<(Response, nat), DecodeError>((r, 9)),
{
    let ResponseKind::Login(l) = r.kind;
    let c = be16(code_value(l.response_code)) + rest;
    let b = r.wire() + rest;
    assert(b =~= r.header.wire() + (be32(l.correlation_id) + c));
    lemma_header_round_trip(r.header, be32(l.correlation_id) + c);
    assert(b.skip(3) =~= be32(l.correlation_id) + c);
    lemma_be32(l.correlation_id, c);
    assert(b.skip(7) =~= c);
    lemma_be16(code_value(l.response_code), rest);
}

} // verus!
