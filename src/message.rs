//! The message command: text from one user addressed to another.
use crate::codec::{
    be32, be64, field_fits, fits_field, lemma_be32, lemma_be64, lemma_str_round_trip, or_empty,
    read_str, spec_read_str, spec_read_u32, spec_read_u64, str_wire, utf8_len, write_str,
    write_u32, write_u64, DecodeError, Decoder, EncodeError, Encoder,
};
use crate::commands::Command;
use crate::types::COMMAND_MESSAGE;
use vstd::prelude::*;

verus! {

/// Model of a message: id, text, sender, addressee, timestamp.
pub type MessageModel = (u32, Seq<char>, Seq<char>, Seq<char>, u64);

/// Wire form of a message body.
pub open spec fn message_wire(m: MessageModel) -> Seq<u8> {
    be32(m.0) + str_wire(m.1) + str_wire(m.2) + str_wire(m.3) + be64(m.4)
}

/// A message body: absent text or sender read as empty; an absent addressee
/// fails with `Empty` once the whole body has been read.
pub open spec fn spec_message_body(b: Seq<u8>) -> Result<(MessageModel, nat), DecodeError> {
    match spec_read_u32(b) {
        Err(e) => Err(e),
        Ok((id, n1)) => match spec_read_str(b.skip(n1 as int)) {
            Err(e) => Err(e),
            Ok((m, n2)) => match spec_read_str(b.skip((n1 + n2) as int)) {
                Err(e) => Err(e),
                Ok((f, n3)) => match spec_read_str(b.skip((n1 + n2 + n3) as int)) {
                    Err(e) => Err(e),
                    Ok((t, n4)) => match spec_read_u64(b.skip((n1 + n2 + n3 + n4) as int)) {
                        Err(e) => Err(e),
                        Ok((time, n5)) => if t is None {
                            Err(DecodeError::Empty)
                        } else {
                            Ok(
                                (
                                    (id, or_empty(m), or_empty(f), or_empty(t), time),
                                    n1 + n2 + n3 + n4 + n5,
                                ),
                            )
                        },
                    },
                },
            },
        },
    }
}

/// A message sent by `from` to the user named `to`.
#[derive(Debug)]
pub struct CommandMessage {
    pub correlation_id: u32,
    pub message: String,
    pub from: String,
    pub to: String,
    pub time: u64,
}

impl CommandMessage {
    pub fn new(correlation_id: u32, message: String, from: String, to: String, time: u64) -> (r:
        Self)
        ensures
            r@ == (correlation_id, message@, from@, to@, time),
    {
        Self { correlation_id, message, from, to, time }
    }
}

impl View for CommandMessage {
    type V = MessageModel;

    open spec fn view(&self) -> MessageModel {
        (self.correlation_id, self.message@, self.from@, self.to@, self.time)
    }
}

fn string_or_empty(v: Option<String>) -> (r: String)
    ensures
        r@ == or_empty(crate::codec::opt_chars(v)),
{
    match v {
        Some(s) => s,
        None => String::new(),
    }
}

impl Decoder for CommandMessage {
    open spec fn spec_decode(b: Seq<u8>) -> Result<(MessageModel, nat), DecodeError> {
        spec_message_body(b)
    }

    fn decode(input: &[u8]) -> (r: Result<(&[u8], CommandMessage), DecodeError>) {
        let (rest1, id) = match u32::decode(input) {
            Ok(p) => p,
            Err(e) => return Err(e),
        };
        let ghost b = input@;
        let (rest2, m) = match read_str(rest1) {
            Ok(p) => p,
            Err(e) => return Err(e),
        };
        let ghost n2 = spec_read_str(b.skip(4))->Ok_0.1;
        assert(rest2@ =~= b.skip(4 + n2 as int));
        let (rest3, f) = match read_str(rest2) {
            Ok(p) => p,
            Err(e) => return Err(e),
        };
        let ghost n3 = spec_read_str(b.skip(4 + n2 as int))->Ok_0.1;
        assert(rest3@ =~= b.skip(4 + n2 + n3 as int));
        let (rest4, t) = match read_str(rest3) {
            Ok(p) => p,
            Err(e) => return Err(e),
        };
        let ghost n4 = spec_read_str(b.skip(4 + n2 + n3 as int))->Ok_0.1;
        assert(rest4@ =~= b.skip(4 + n2 + n3 + n4 as int));
        let (rest5, time) = match u64::decode(rest4) {
            Ok(p) => p,
            Err(e) => return Err(e),
        };
        assert(rest5@ =~= b.skip(4 + n2 + n3 + n4 + 8 as int));
        let to = match t {
            Some(s) => s,
            None => return Err(DecodeError::Empty),
        };
        let message = string_or_empty(m);
        let from = string_or_empty(f);
        Ok((rest5, CommandMessage::new(id, message, from, to, time)))
    }
}

impl Encoder for CommandMessage {
    open spec fn wire(&self) -> Seq<u8> {
        message_wire(self@)
    }

    open spec fn encodable(&self) -> bool {
        fits_field(self.message@) && fits_field(self.from@) && fits_field(self.to@)
    }

    fn encoded_size(&self) -> (r: u32) {
        self.correlation_id.encoded_size() + self.message.encoded_size()
            + self.from.encoded_size() + self.to.encoded_size() + self.time.encoded_size()
    }

    fn encode(&self, out: &mut Vec<u8>) -> (r: Result<(), EncodeError>) {
        if !field_fits(&self.message) {
            return Err(EncodeError::MaxSizeError(self.message.as_str().as_bytes().len()));
        }
        if !field_fits(&self.from) {
            return Err(EncodeError::MaxSizeError(self.from.as_str().as_bytes().len()));
        }
        if !field_fits(&self.to) {
            return Err(EncodeError::MaxSizeError(self.to.as_str().as_bytes().len()));
        }
        write_u32(out, self.correlation_id);
        let _ = write_str(out, self.message.as_str());
        let _ = write_str(out, self.from.as_str());
        let _ = write_str(out, self.to.as_str());
        write_u64(out, self.time);
        assert(out@ =~= old(out)@ + self.wire());
        Ok(())
    }
}

impl Command for CommandMessage {
    open spec fn command_key(&self) -> u16 {
        COMMAND_MESSAGE
    }

    fn key(&self) -> (r: u16) {
        COMMAND_MESSAGE
    }
}

/// A message body read back from its wire form is the same message, provided
/// it names an addressee.
#[verifier::rlimit(100)]
#[verifier::spinoff_prover]
pub proof fn lemma_message_round_trip(m: MessageModel, rest: Seq<u8>)
    requires
        fits_field(m.1),
        fits_field(m.2),
        fits_field(m.3),
        m.3.len() > 0,
    ensures
        spec_message_body(message_wire(m) + rest) == Ok::<(MessageModel, nat), DecodeError>(
            (m, message_wire(m).len()),
        ),
{
    let w1 = str_wire(m.1);
    let w2 = str_wire(m.2);
    let w3 = str_wire(m.3);
    let t = be64(m.4) + rest;
    let b = message_wire(m) + rest;
    assert(b =~= be32(m.0) + (w1 + (w2 + (w3 + t))));
    lemma_be32(m.0, w1 + (w2 + (w3 + t)));
    assert(spec_read_u32(b) == Ok::<(u32, nat), DecodeError>((m.0, 4)));
    assert(b.skip(4) =~= w1 + (w2 + (w3 + t)));
    lemma_str_round_trip(m.1, w2 + (w3 + t));
    let n2 = (2 + utf8_len(m.1)) as nat;
    assert(or_empty(spec_read_str(b.skip(4))->Ok_0.0) =~= m.1);
    assert(b.skip(4 + n2 as int) =~= w2 + (w3 + t));
    lemma_str_round_trip(m.2, w3 + t);
    let n3 = (2 + utf8_len(m.2)) as nat;
    assert(or_empty(spec_read_str(b.skip(4 + n2 as int))->Ok_0.0) =~= m.2);
    assert(b.skip(4 + n2 + n3 as int) =~= w3 + t);
    lemma_str_round_trip(m.3, t);
    let n4 = (2 + utf8_len(m.3)) as nat;
    assert(b.skip(4 + n2 + n3 + n4 as int) =~= t);
    lemma_be64(m.4, rest);
    assert(spec_read_u64(t) == Ok::<(u64, nat), DecodeError>((m.4, 8)));
    assert(message_wire(m).len() == 4 + n2 + n3 + n4 + 8);
}

} // verus!
