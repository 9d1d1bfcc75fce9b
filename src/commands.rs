//! Request commands: login and user-to-user messages.
use crate::codec::{
    be32, field_fits, fits_field, lemma_be32, lemma_str_round_trip, or_empty, read_str,
    spec_read_str, spec_read_u32, str_wire, utf8_len, write_str, write_u32, DecodeError, Decoder,
    EncodeError, Encoder,
};
use crate::types::{COMMAND_LOGIN, PROTOCOL_VERSION};
use vstd::prelude::*;

verus! {

/// A command that travels under a header naming its key.
pub trait Command {
    spec fn command_key(&self) -> u16;

    fn key(&self) -> (r: u16)
        ensures
            r == self.command_key(),
    ;

    fn version(&self) -> (r: u8)
        ensures
            r == PROTOCOL_VERSION,
    {
        PROTOCOL_VERSION
    }
}

/// Wire form of a login body.
pub open spec fn login_wire(correlation_id: u32, user_name: Seq<char>) -> Seq<u8> {
    be32(correlation_id) + str_wire(user_name)
}

/// A login body: an absent user name reads as the empty name.
pub open spec fn spec_login_body(b: Seq<u8>) -> Result<((u32, Seq<char>), nat), DecodeError> {
    match spec_read_u32(b) {
        Err(e) => Err(e),
        Ok((id, n1)) => match spec_read_str(b.skip(n1 as int)) {
            Err(e) => Err(e),
            Ok((name, n2)) => Ok(((id, or_empty(name)), n1 + n2)),
        },
    }
}

fn decode_login_body(input: &[u8]) -> (r: Result<(&[u8], u32, String), DecodeError>)
    ensures
        match (r, spec_login_body(input@)) {
            (Ok((rest, id, name)), Ok((sv, n))) => (id, name@) == sv && n <= input@.len() && rest@
                == input@.skip(n as int),
            (Err(e), Err(se)) => e == se,
            _ => false,
        },
{
    let (rest1, id) = match u32::decode(input) {
        Ok(p) => p,
        Err(e) => return Err(e),
    };
    let (rest2, name) = match read_str(rest1) {
        Ok(p) => p,
        Err(e) => return Err(e),
    };
    let user_name = match name {
        Some(s) => s,
        None => String::new(),
    };
    proof {
        let n2 = spec_read_str(input@.skip(4))->Ok_0.1;
        assert(rest2@ =~= input@.skip(4 + n2 as int));
    }
    Ok((rest2, id, user_name))
}

fn encode_login_body(correlation_id: u32, user_name: &String, out: &mut Vec<u8>) -> (r: Result<
    (),
    EncodeError,
>)
    ensures
        r is Ok <==> fits_field(user_name@),
        r is Ok ==> final(out)@ == old(out)@ + login_wire(correlation_id, user_name@),
        r is Err ==> final(out)@ == old(out)@,
        r matches Err(EncodeError::MaxSizeError(n)) ==> n == utf8_len(user_name@),
{
    if !field_fits(user_name) {
        return Err(EncodeError::MaxSizeError(user_name.as_str().as_bytes().len()));
    }
    write_u32(out, correlation_id);
    let _ = write_str(out, user_name.as_str());
    assert(out@ =~= old(out)@ + login_wire(correlation_id, user_name@));
    Ok(())
}

/// A login body read back from its wire form gives the same id and name.
pub proof fn lemma_login_round_trip(correlation_id: u32, user_name: Seq<char>, rest: Seq<u8>)
    requires
        fits_field(user_name),
    ensures
        spec_login_body(login_wire(correlation_id, user_name) + rest) == Ok::<
            ((u32, Seq<char>), nat),
            DecodeError,
        >(((correlation_id, user_name), login_wire(correlation_id, user_name).len())),
{
    let b = login_wire(correlation_id, user_name) + rest;
    assert(b =~= be32(correlation_id) + (str_wire(user_name) + rest));
    lemma_be32(correlation_id, str_wire(user_name) + rest);
    assert(b.skip(4) =~= str_wire(user_name) + rest);
    lemma_str_round_trip(user_name, rest);
    if user_name.len() == 0 {
        assert(or_empty(None) =~= user_name);
    }
}

/// A client's request to be known under `user_name`.
#[derive(Debug, PartialEq, Eq)]
pub struct LoginRequest {
    pub correlation_id: u32,
    pub user_name: String,
}

impl LoginRequest {
    pub fn new(correlation_id: u32, user_name: String) -> (r: Self)
        ensures
            r.correlation_id == correlation_id,
            r.user_name@ == user_name@,
    {
        Self { correlation_id, user_name }
    }
}

impl View for LoginRequest {
    type V = (u32, Seq<char>);

    open spec fn view(&self) -> (u32, Seq<char>) {
        (self.correlation_id, self.user_name@)
    }
}

impl Decoder for LoginRequest {
    open spec fn spec_decode(b: Seq<u8>) -> Result<((u32, Seq<char>), nat), DecodeError> {
        spec_login_body(b)
    }

    fn decode(input: &[u8]) -> (r: Result<(&[u8], LoginRequest), DecodeError>) {
        match decode_login_body(input) {
            Ok((rest, id, name)) => Ok((rest, LoginRequest::new(id, name))),
            Err(e) => Err(e),
        }
    }
}

impl Encoder for LoginRequest {
    open spec fn wire(&self) -> Seq<u8> {
        login_wire(self.correlation_id, self.user_name@)
    }

    open spec fn encodable(&self) -> bool {
        fits_field(self.user_name@)
    }

    fn encoded_size(&self) -> (r: u32) {
        self.correlation_id.encoded_size() + self.user_name.encoded_size()
    }

    fn encode(&self, out: &mut Vec<u8>) -> (r: Result<(), EncodeError>) {
        encode_login_body(self.correlation_id, &self.user_name, out)
    }
}

impl Command for LoginRequest {
    open spec fn command_key(&self) -> u16 {
        COMMAND_LOGIN
    }

    fn key(&self) -> (r: u16) {
        COMMAND_LOGIN
    }
}

/// A login body with the same wire form as `LoginRequest`.
#[derive(Debug, PartialEq, Eq)]
pub struct Login {
    pub correlation_id: u32,
    pub user_name: String,
}

impl View for Login {
    type V = (u32, Seq<char>);

    open spec fn view(&self) -> (u32, Seq<char>) {
        (self.correlation_id, self.user_name@)
    }
}

impl Decoder for Login {
    open spec fn spec_decode(b: Seq<u8>) -> Result<((u32, Seq<char>), nat), DecodeError> {
        spec_login_body(b)
    }

    fn decode(input: &[u8]) -> (r: Result<(&[u8], Login), DecodeError>) {
        match decode_login_body(input) {
            Ok((rest, id, name)) => Ok((rest, Login { correlation_id: id, user_name: name })),
            Err(e) => Err(e),
        }
    }
}

impl Encoder for Login {
    open spec fn wire(&self) -> Seq<u8> {
        login_wire(self.correlation_id, self.user_name@)
    }

    open spec fn encodable(&self) -> bool {
        fits_field(self.user_name@)
    }

    fn encoded_size(&self) -> (r: u32) {
        self.correlation_id.encoded_size() + self.user_name.encoded_size()
    }

    fn encode(&self, out: &mut Vec<u8>) -> (r: Result<(), EncodeError>) {
        encode_login_body(self.correlation_id, &self.user_name, out)
    }
}

/// A chat line as the relay's users see it.
#[derive(Debug)]
pub struct Message {
    pub user_name: String,
    pub payload: String,
}

} // verus!
