//! Big-endian fixed-width integers and nullable length-prefixed strings.
use vstd::prelude::*;
use vstd::string::StringSliceAdditionalSpecFns;
use vstd::utf8::{decode_utf8, encode_utf8, valid_utf8};

verus! {

/// Not enough bytes remained; holds the number of bytes the read needed.
#[derive(Debug, PartialEq, Eq)]
pub struct IncompleteError(pub usize);

/// Why a run of bytes could not be decoded.
#[derive(Debug, PartialEq, Eq)]
pub enum DecodeError {
    Incomplete(IncompleteError),
    /// A string field's bytes are not valid UTF-8.
    Utf8Error,
    UnknownResponseCode(u16),
    UnsupportedResponseType(u16),
    /// A string field declared a negative length (the raw 16-bit word).
    MismatchSize(usize),
    MessageParse(String),
    InvalidFormatCode(u8),
    /// A required string field was absent.
    Empty,
}

/// Why a value could not be encoded.
#[derive(Debug, PartialEq, Eq)]
pub enum EncodeError {
    /// A string field is longer than the signed 16-bit length allows.
    MaxSizeError(usize),
}

/// Largest byte length of a string field.
pub const MAX_FIELD_LEN: usize = 32767;

pub open spec fn be16(v: u16) -> Seq<u8> {
    seq![(v >> 8u16) as u8, v as u8]
}

pub open spec fn be32(v: u32) -> Seq<u8> {
    seq![(v >> 24u32) as u8, (v >> 16u32) as u8, (v >> 8u32) as u8, v as u8]
}

pub open spec fn be64(v: u64) -> Seq<u8> {
    seq![
        (v >> 56u64) as u8, (v >> 48u64) as u8, (v >> 40u64) as u8, (v >> 32u64) as u8,
        (v >> 24u64) as u8, (v >> 16u64) as u8, (v >> 8u64) as u8, v as u8,
    ]
}

/// The integer whose big-endian form starts `b`.
pub open spec fn be16_value(b: Seq<u8>) -> u16 {
    ((b[0] as u16) << 8u16) | (b[1] as u16)
}

pub open spec fn be32_value(b: Seq<u8>) -> u32 {
    ((b[0] as u32) << 24u32) | ((b[1] as u32) << 16u32) | ((b[2] as u32) << 8u32) | (b[3] as u32)
}

pub open spec fn be64_value(b: Seq<u8>) -> u64 {
    ((b[0] as u64) << 56u64) | ((b[1] as u64) << 48u64) | ((b[2] as u64) << 40u64)
        | ((b[3] as u64) << 32u64) | ((b[4] as u64) << 24u64) | ((b[5] as u64) << 16u64)
        | ((b[6] as u64) << 8u64) | (b[7] as u64)
}

pub proof fn lemma_be16(v: u16, rest: Seq<u8>)
    ensures
        be16_value(be16(v) + rest) == v,
{
    let b = be16(v) + rest;
    assert(b[0] == (v >> 8u16) as u8 && b[1] == v as u8);
    assert((((((v >> 8u16) as u8) as u16) << 8u16) | ((v as u8) as u16)) == v) by (bit_vector);
}

pub proof fn lemma_be32(v: u32, rest: Seq<u8>)
    ensures
        be32_value(be32(v) + rest) == v,
{
    let b = be32(v) + rest;
    assert(b[0] == (v >> 24u32) as u8 && b[1] == (v >> 16u32) as u8 && b[2] == (v >> 8u32) as u8
        && b[3] == v as u8);
    assert((((((v >> 24u32) as u8) as u32) << 24u32) | ((((v >> 16u32) as u8) as u32) << 16u32)
        | ((((v >> 8u32) as u8) as u32) << 8u32) | ((v as u8) as u32)) == v) by (bit_vector);
}

pub proof fn lemma_be64(v: u64, rest: Seq<u8>)
    ensures
        be64_value(be64(v) + rest) == v,
{
    let b = be64(v) + rest;
    assert(b[0] == (v >> 56u64) as u8 && b[1] == (v >> 48u64) as u8 && b[2] == (v >> 40u64) as u8
        && b[3] == (v >> 32u64) as u8 && b[4] == (v >> 24u64) as u8 && b[5] == (v >> 16u64) as u8
        && b[6] == (v >> 8u64) as u8 && b[7] == v as u8);
    assert((((((v >> 56u64) as u8) as u64) << 56u64) | ((((v >> 48u64) as u8) as u64) << 48u64)
        | ((((v >> 40u64) as u8) as u64) << 40u64) | ((((v >> 32u64) as u8) as u64) << 32u64)
        | ((((v >> 24u64) as u8) as u64) << 24u64) | ((((v >> 16u64) as u8) as u64) << 16u64)
        | ((((v >> 8u64) as u8) as u64) << 8u64) | ((v as u8) as u64)) == v) by (bit_vector);
}

/// Fails with `Incomplete(size)` when fewer than `size` bytes are given.
pub fn check_len(input: &[u8], size: usize) -> (r: Result<(), IncompleteError>)
    ensures
        r is Ok <==> input@.len() >= size,
        r matches Err(e) ==> e.0 == size,
{
    if input.len() < size {
        return Err(IncompleteError(size));
    }
    Ok(())
}

pub fn read_u16(input: &[u8]) -> (r: Result<(&[u8], u16), IncompleteError>)
    ensures
        match r {
            Ok((rest, v)) => input@.len() >= 2 && v == be16_value(input@) && rest@ == input@.skip(2),
            Err(e) => input@.len() < 2 && e.0 == 2,
        },
{
    check_len(input, 2)?;
    let v = ((input[0] as u16) << 8u16) | (input[1] as u16);
    let (_, rest) = input.split_at(2);
    Ok((rest, v))
}

pub fn read_u32(input: &[u8]) -> (r: Result<(&[u8], u32), IncompleteError>)
    ensures
        match r {
            Ok((rest, v)) => input@.len() >= 4 && v == be32_value(input@) && rest@ == input@.skip(4),
            Err(e) => input@.len() < 4 && e.0 == 4,
        },
{
    check_len(input, 4)?;
    let v = ((input[0] as u32) << 24u32) | ((input[1] as u32) << 16u32) | ((input[2] as u32)
        << 8u32) | (input[3] as u32);
    let (_, rest) = input.split_at(4);
    Ok((rest, v))
}

pub fn read_u64(input: &[u8]) -> (r: Result<(&[u8], u64), IncompleteError>)
    ensures
        match r {
            Ok((rest, v)) => input@.len() >= 8 && v == be64_value(input@) && rest@ == input@.skip(8),
            Err(e) => input@.len() < 8 && e.0 == 8,
        },
{
    check_len(input, 8)?;
    let v = ((input[0] as u64) << 56u64) | ((input[1] as u64) << 48u64) | ((input[2] as u64)
        << 40u64) | ((input[3] as u64) << 32u64) | ((input[4] as u64) << 24u64) | ((input[5] as u64)
        << 16u64) | ((input[6] as u64) << 8u64) | (input[7] as u64);
    let (_, rest) = input.split_at(8);
    Ok((rest, v))
}

pub fn write_u16(out: &mut Vec<u8>, v: u16)
    ensures
        final(out)@ == old(out)@ + be16(v),
{
    out.push((v >> 8u16) as u8);
    out.push(v as u8);
    assert(out@ =~= old(out)@ + be16(v));
}


pub fn write_u32(out: &mut Vec<u8>, v: u32)
    ensures
        final(out)@ == old(out)@ + be32(v),
{
    out.push((v >> 24u32) as u8);
    out.push((v >> 16u32) as u8);
    out.push((v >> 8u32) as u8);
    out.push(v as u8);
    assert(out@ =~= old(out)@ + be32(v));
}

pub fn write_u64(out: &mut Vec<u8>, v: u64)
    ensures
        final(out)@ == old(out)@ + be64(v),
{
    out.push((v >> 56u64) as u8);
    out.push((v >> 48u64) as u8);
    out.push((v >> 40u64) as u8);
    out.push((v >> 32u64) as u8);
    out.push((v >> 24u64) as u8);
    out.push((v >> 16u64) as u8);
    out.push((v >> 8u64) as u8);
    out.push(v as u8);
    assert(out@ =~= old(out)@ + be64(v));
}

/// Appends `bytes` to `out`.
pub fn write_bytes(out: &mut Vec<u8>, bytes: &[u8])
    ensures
        final(out)@ == old(out)@ + bytes@,
{
    let mut i: usize = 0;
    while i < bytes.len()
        invariant
            0 <= i <= bytes@.len(),
            out@ == old(out)@ + bytes@.take(i as int),
        decreases bytes@.len() - i,
    {
        out.push(bytes[i]);
        i = i + 1;
        assert(bytes@.take(i as int) =~= bytes@.take(i - 1) + seq![bytes@[i - 1]]);
        assert(out@ =~= old(out)@ + bytes@.take(i as int));
    }
    assert(bytes@.take(i as int) =~= bytes@);
}

/// The UTF-8 bytes of a string.
pub open spec fn utf8_len(s: Seq<char>) -> nat {
    encode_utf8(s).len()
}

/// A string fits a field when its UTF-8 form is at most `MAX_FIELD_LEN` bytes.
pub open spec fn fits_field(s: Seq<char>) -> bool {
    utf8_len(s) <= MAX_FIELD_LEN
}

/// Wire form of a string field: its UTF-8 byte length as a 16-bit word, then the bytes.
pub open spec fn str_wire(s: Seq<char>) -> Seq<u8> {
    be16(utf8_len(s) as u16) + encode_utf8(s)
}

/// A decoded string field (`None` when the length is zero) and the bytes it took.
pub open spec fn spec_read_str(b: Seq<u8>) -> Result<(Option<Seq<char>>, nat), DecodeError> {
    if b.len() < 2 {
        Err(DecodeError::Incomplete(IncompleteError(2)))
    } else {
        let w = be16_value(b);
        if w == 0 {
            Ok((None, 2))
        } else if w >= 0x8000 {
            Err(DecodeError::MismatchSize(w as usize))
        } else if b.len() < 2 + w {
            Err(DecodeError::Incomplete(IncompleteError(w as usize)))
        } else if !valid_utf8(b.subrange(2, 2 + w)) {
            Err(DecodeError::Utf8Error)
        } else {
            Ok((Some(decode_utf8(b.subrange(2, 2 + w))), (2 + w) as nat))
        }
    }
}

pub open spec fn opt_chars(v: Option<String>) -> Option<Seq<char>> {
    match v {
        Some(s) => Some(s@),
        None => None,
    }
}

/// Relies on `String::from_utf8`: it succeeds exactly on valid UTF-8, and the
/// string then holds the characters that the bytes encode.
#[verifier::external_body]
fn utf8_string(b: &[u8]) -> (r: Option<String>)
    ensures
        r is Some <==> valid_utf8(b@),
        r matches Some(s) ==> s@ == decode_utf8(b@),
{
    String::from_utf8(b.to_vec()).ok()
}

/// Reads a nullable string field; a zero length reads as `None`.
pub fn read_str(input: &[u8]) -> (r: Result<(&[u8], Option<String>), DecodeError>)
    ensures
        match (r, spec_read_str(input@)) {
            (Ok((rest, v)), Ok((sv, n))) => opt_chars(v) == sv && rest@ == input@.skip(n as int),
            (Err(e), Err(se)) => e == se,
            _ => false,
        },
{
    let (body, w) = match read_u16(input) {
        Ok(p) => p,
        Err(e) => return Err(DecodeError::Incomplete(e)),
    };
    if w == 0 {
        return Ok((body, None));
    }
    if w >= 0x8000 {
        return Err(DecodeError::MismatchSize(w as usize));
    }
    let len = w as usize;
    if body.len() < len {
        return Err(DecodeError::Incomplete(IncompleteError(len)));
    }
    let (bytes, rest) = body.split_at(len);
    assert(bytes@ =~= input@.subrange(2, 2 + len));
    assert(rest@ =~= input@.skip(2 + len));
    match utf8_string(bytes) {
        Some(s) => Ok((rest, Some(s))),
        None => Err(DecodeError::Utf8Error),
    }
}

/// Writes a string field; fails, writing nothing, when it does not fit.
pub fn write_str(out: &mut Vec<u8>, s: &str) -> (r: Result<(), EncodeError>)
    ensures
        r is Ok <==> fits_field(s@),
        r is Ok ==> final(out)@ == old(out)@ + str_wire(s@),
        r matches Err(EncodeError::MaxSizeError(n)) ==> n == utf8_len(s@) && final(out)@ == old(out)@,
{
    let bytes = s.as_bytes();
    let n = bytes.len();
    if n > MAX_FIELD_LEN {
        return Err(EncodeError::MaxSizeError(n));
    }
    write_u16(out, n as u16);
    write_bytes(out, bytes);
    assert(out@ =~= old(out)@ + str_wire(s@));
    Ok(())
}

/// A string field read back from its wire form gives the string again, absent
/// when it is empty.
pub proof fn lemma_str_round_trip(s: Seq<char>, rest: Seq<u8>)
    requires
        fits_field(s),
    ensures
        spec_read_str(str_wire(s) + rest) == (if s.len() == 0 {
            Ok::<(Option<Seq<char>>, nat), DecodeError>((None, 2))
        } else {
            Ok((Some(s), (2 + utf8_len(s)) as nat))
        }),
{
    let b = str_wire(s) + rest;
    let e = encode_utf8(s);
    lemma_be16(e.len() as u16, e + rest);
    assert(b =~= be16(e.len() as u16) + (e + rest));
    vstd::utf8::encode_utf8_valid_utf8(s);
    vstd::utf8::encode_utf8_decode_utf8(s);
    if s.len() == 0 {
        assert(e.len() == 0);
    } else {
        assert(e.len() > 0);
        assert(b.subrange(2, 2 + e.len() as int) =~= e);
    }
}


/// A decoded value's model, or the error, with the number of bytes taken.
pub open spec fn spec_read_u32(b: Seq<u8>) -> Result<(u32, nat), DecodeError> {
    if b.len() < 4 {
        Err(DecodeError::Incomplete(IncompleteError(4)))
    } else {
        Ok((be32_value(b), 4))
    }
}

pub open spec fn spec_read_u64(b: Seq<u8>) -> Result<(u64, nat), DecodeError> {
    if b.len() < 8 {
        Err(DecodeError::Incomplete(IncompleteError(8)))
    } else {
        Ok((be64_value(b), 8))
    }
}

/// The characters of an optional string field, empty when it is absent.
pub open spec fn or_empty(v: Option<Seq<char>>) -> Seq<char> {
    match v {
        Some(s) => s,
        None => Seq::empty(),
    }
}

/// A value that can be read from the front of a byte run.
pub trait Decoder: Sized + View {
    /// The model of the value at the front of `b` and the bytes it takes, or
    /// the error that decoding reports.
    spec fn spec_decode(b: Seq<u8>) -> Result<(Self::V, nat), DecodeError>;

    /// Decodes a value and hands back the bytes after it.
    fn decode(input: &[u8]) -> (r: Result<(&[u8], Self), DecodeError>)
        ensures
            match (r, Self::spec_decode(input@)) {
                (Ok((rest, v)), Ok((sv, n))) => v@ == sv && n <= input@.len() && rest@
                    == input@.skip(n as int),
                (Err(e), Err(se)) => e == se,
                _ => false,
            },
    ;
}

/// A value with a wire form.
pub trait Encoder: View {
    /// The bytes that `encode` writes.
    spec fn wire(&self) -> Seq<u8>;

    /// Whether every string field fits its 16-bit length.
    spec fn encodable(&self) -> bool;

    /// Exact length of the wire form.
    fn encoded_size(&self) -> (r: u32)
        requires
            self.encodable(),
        ensures
            r as int == self.wire().len(),
    ;

    /// Appends the wire form to `out`; fails, writing nothing, when a string
    /// field is too long.
    fn encode(&self, out: &mut Vec<u8>) -> (r: Result<(), EncodeError>)
        ensures
            r is Ok <==> self.encodable(),
            r is Ok ==> final(out)@ == old(out)@ + self.wire(),
            r is Err ==> final(out)@ == old(out)@,
            r matches Err(EncodeError::MaxSizeError(n)) ==> n > MAX_FIELD_LEN,
    ;
}

impl Decoder for u32 {
    open spec fn spec_decode(b: Seq<u8>) -> Result<(u32, nat), DecodeError> {
        spec_read_u32(b)
    }

    fn decode(input: &[u8]) -> (r: Result<(&[u8], u32), DecodeError>) {
        match read_u32(input) {
            Ok(p) => Ok(p),
            Err(e) => Err(DecodeError::Incomplete(e)),
        }
    }
}

impl Decoder for u64 {
    open spec fn spec_decode(b: Seq<u8>) -> Result<(u64, nat), DecodeError> {
        spec_read_u64(b)
    }

    fn decode(input: &[u8]) -> (r: Result<(&[u8], u64), DecodeError>) {
        match read_u64(input) {
            Ok(p) => Ok(p),
            Err(e) => Err(DecodeError::Incomplete(e)),
        }
    }
}

impl Encoder for u16 {
    open spec fn wire(&self) -> Seq<u8> {
        be16(*self)
    }

    open spec fn encodable(&self) -> bool {
        true
    }

    fn encoded_size(&self) -> (r: u32) {
        2
    }

    fn encode(&self, out: &mut Vec<u8>) -> (r: Result<(), EncodeError>) {
        write_u16(out, *self);
        Ok(())
    }
}

impl Encoder for u32 {
    open spec fn wire(&self) -> Seq<u8> {
        be32(*self)
    }

    open spec fn encodable(&self) -> bool {
        true
    }

    fn encoded_size(&self) -> (r: u32) {
        4
    }

    fn encode(&self, out: &mut Vec<u8>) -> (r: Result<(), EncodeError>) {
        write_u32(out, *self);
        Ok(())
    }
}

impl Encoder for u64 {
    open spec fn wire(&self) -> Seq<u8> {
        be64(*self)
    }

    open spec fn encodable(&self) -> bool {
        true
    }

    fn encoded_size(&self) -> (r: u32) {
        8
    }

    fn encode(&self, out: &mut Vec<u8>) -> (r: Result<(), EncodeError>) {
        write_u64(out, *self);
        Ok(())
    }
}

impl Encoder for String {
    open spec fn wire(&self) -> Seq<u8> {
        str_wire(self@)
    }

    open spec fn encodable(&self) -> bool {
        fits_field(self@)
    }

    fn encoded_size(&self) -> (r: u32) {
        2 + self.as_str().len() as u32
    }

    fn encode(&self, out: &mut Vec<u8>) -> (r: Result<(), EncodeError>) {
        write_str(out, self.as_str())
    }
}

/// Whether `s` fits a string field.
pub fn field_fits(s: &String) -> (r: bool)
    ensures
        r == fits_field(s@),
{
    s.as_str().as_bytes().len() <= MAX_FIELD_LEN
}

} // verus!
