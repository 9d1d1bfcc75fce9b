//! Protocol constants and the frame header.
use crate::codec::{
    be16, be16_value, lemma_be16, read_u16, write_u16, DecodeError, Decoder, EncodeError,
    Encoder, IncompleteError,
};
use vstd::prelude::*;

verus! {

pub const PROTOCOL_VERSION: u8 = 0x01;

pub const COMMAND_LOGIN: u16 = 0x01;

pub const COMMAND_MESSAGE: u16 = 0x02;

pub const GENERIC_RESPONSE: u16 = 0x03;

/// Wire format version and the command key that selects the body's decoder.
#[derive(Clone, Copy, Debug, PartialEq, Eq, Structural)]
pub struct Header {
    pub version: u8,
    pub key: u16,
}

impl Header {
    pub fn new(version: u8, key: u16) -> (r: Self)
        ensures
            r.version == version,
            r.key == key,
    {
        Self { version, key }
    }

    pub fn version(&self) -> (r: u8)
        ensures
            r == self.version,
    {
        self.version
    }

    pub fn key(&self) -> (r: u16)
        ensures
            r == self.key,
    {
        self.key
    }
}

impl View for Header {
    type V = Header;

    open spec fn view(&self) -> Header {
        *self
    }
}

impl Decoder for Header {
    open spec fn spec_decode(b: Seq<u8>) -> Result<(Header, nat), DecodeError> {
        if b.len() < 3 {
            Err(DecodeError::Incomplete(IncompleteError(3)))
        } else {
            Ok((Header { version: b[0], key: be16_value(b.skip(1)) }, 3))
        }
    }

    fn decode(input: &[u8]) -> (r: Result<(&[u8], Header), DecodeError>) {
        if input.len() < 3 {
            return Err(DecodeError::Incomplete(IncompleteError(3)));
        }
        let version = input[0];
        let (_, tail) = input.split_at(1);
        match read_u16(tail) {
            Ok((rest, key)) => {
                assert(rest@ =~= input@.skip(3));
                Ok((rest, Self::new(version, key)))
            },
            Err(e) => Err(DecodeError::Incomplete(e)),
        }
    }
}

impl Encoder for Header {
    open spec fn wire(&self) -> Seq<u8> {
        seq![self.version] + be16(self.key)
    }

    open spec fn encodable(&self) -> bool {
        true
    }

    fn encoded_size(&self) -> (r: u32) {
        1 + 2
    }

    fn encode(&self, out: &mut Vec<u8>) -> (r: Result<(), EncodeError>) {
        out.push(self.version);
        write_u16(out, self.key);
        assert(out@ =~= old(out)@ + self.wire());
        Ok(())
    }
}

/// A header read back from its wire form is the header again.
pub proof fn lemma_header_round_trip(h: Header, rest: Seq<u8>)
    ensures
        Header::spec_decode(h.wire() + rest) == Ok::<(Header, nat), DecodeError>((h, 3)),
{
    let b = h.wire() + rest;
    lemma_be16(h.key, rest);
    assert(b.skip(1) =~= be16(h.key) + rest);
}

} // verus!
