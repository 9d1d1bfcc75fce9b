//! Frames: a 4-byte big-endian length, then that many payload bytes.
use crate::codec::{
    be32, be32_value, lemma_be32, read_u32, write_bytes, write_u32, DecodeError, EncodeError,
    Encoder, IncompleteError,
};
use crate::message::{message_wire, CommandMessage, MessageModel};
use crate::response::Response;
use crate::types::{Header, COMMAND_MESSAGE, PROTOCOL_VERSION};
use vstd::prelude::*;

verus! {

pub open spec fn frame_wire(payload: Seq<u8>) -> Seq<u8> {
    be32(payload.len() as u32) + payload
}

/// The payload of the frame at the front of `b` and the bytes the frame takes.
pub open spec fn spec_read_frame(b: Seq<u8>) -> Result<(Seq<u8>, nat), DecodeError> {
    if b.len() < 4 {
        Err(DecodeError::Incomplete(IncompleteError(4)))
    } else if b.len() < 4 + be32_value(b) {
        Err(DecodeError::Incomplete(IncompleteError(be32_value(b) as usize)))
    } else {
        Ok((b.subrange(4, 4 + be32_value(b)), (4 + be32_value(b)) as nat))
    }
}

/// The frame for `payload`; a payload too long for a 32-bit length is refused.
pub fn write_frame(payload: &[u8]) -> (r: Result<Vec<u8>, EncodeError>)
    ensures
        r is Ok <==> payload@.len() <= u32::MAX,
        r matches Ok(v) ==> v@ == frame_wire(payload@),
        r matches Err(EncodeError::MaxSizeError(n)) ==> n == payload@.len(),
{
    let n = payload.len();
    if n > 0xffff_ffffusize {
        return Err(EncodeError::MaxSizeError(n));
    }
    let mut out: Vec<u8> = Vec::new();
    write_u32(&mut out, n as u32);
    write_bytes(&mut out, payload);
    assert(out@ =~= frame_wire(payload@));
    Ok(out)
}

/// Splits the frame at the front of `input` into its payload and the bytes
/// after it; `Incomplete` when the length prefix or the payload is cut short.
pub fn read_frame(input: &[u8]) -> (r: Result<(&[u8], &[u8]), DecodeError>)
    ensures
        match (r, spec_read_frame(input@)) {
            (Ok((rest, payload)), Ok((p, n))) => payload@ == p && n <= input@.len() && rest@
                == input@.skip(n as int),
            (Err(e), Err(se)) => e == se,
            _ => false,
        },
{
    let (body, len) = match read_u32(input) {
        Ok(p) => p,
        Err(e) => return Err(DecodeError::Incomplete(e)),
    };
    let n = len as usize;
    if body.len() < n {
        return Err(DecodeError::Incomplete(IncompleteError(n)));
    }
    let (payload, rest) = body.split_at(n);
    assert(payload@ =~= input@.subrange(4, 4 + n));
    assert(rest@ =~= input@.skip(4 + n));
    Ok((rest, payload))
}

/// A frame read back from its wire form gives the payload again.
pub proof fn lemma_frame_round_trip(payload: Seq<u8>, rest: Seq<u8>)
    requires
        payload.len() <= u32::MAX,
    ensures
        spec_read_frame(frame_wire(payload) + rest) == Ok::<(Seq<u8>, nat), DecodeError>(
            (payload, 4 + payload.len()),
        ),
{
    let b = frame_wire(payload) + rest;
    assert(b =~= be32(payload.len() as u32) + (payload + rest));
    lemma_be32(payload.len() as u32, payload + rest);
    assert(b.subrange(4, 4 + payload.len() as int) =~= payload);
}

/// Payload of a forwarded message: its header, then its body.
pub open spec fn message_payload(m: MessageModel) -> Seq<u8> {
    Header { version: PROTOCOL_VERSION, key: COMMAND_MESSAGE }.wire() + message_wire(m)
}

/// The frame that carries `msg` under a message header; refused when a string
/// field is too long.
pub fn message_frame(msg: &CommandMessage) -> (r: Result<Vec<u8>, EncodeError>)
    ensures
        r is Ok <==> msg.encodable(),
        r matches Ok(v) ==> v@ == frame_wire(message_payload(msg@)),
{
    let mut payload: Vec<u8> = Vec::new();
    let header = Header::new(PROTOCOL_VERSION, COMMAND_MESSAGE);
    let _ = header.encode(&mut payload);
    match msg.encode(&mut payload) {
        Ok(()) => {},
        Err(e) => return Err(e),
    }
    assert(payload@ =~= message_payload(msg@));
    write_frame(payload.as_slice())
}

/// The frame that carries `response`.
pub fn response_frame(response: &Response) -> (r: Vec<u8>)
    ensures
        r@ == frame_wire(response.wire()),
{
    let mut out: Vec<u8> = Vec::new();
    write_u32(&mut out, response.encoded_size());
    let _ = response.encode(&mut out);
    assert(out@ =~= frame_wire(response.wire()));
    out
}

} // verus!
