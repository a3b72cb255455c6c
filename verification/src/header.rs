//! The fixed 12-byte DNS header: transaction id, control flags, opcode,
//! response code and the four 16-bit section counts.
//!
//! Bit layout of the two flag bytes (RFC 1035):
//!
//! ```text
//! +--+--+--+--+--+--+--+--+--+--+--+--+--+--+--+--+
//! |QR|   Opcode  |AA|TC|RD|RA|   Z    |   RCODE   |
//! +--+--+--+--+--+--+--+--+--+--+--+--+--+--+--+--+
//! ```
//!
//! The three Z bits are reserved and must be zero; a set reserved bit is a
//! decode error.
use vstd::prelude::*;

use crate::DecodeError;

verus! {

/// The kind of operation a message asks for, from the 4-bit opcode field.
/// Any other 4-bit value is rejected as `InvalidOpcode`.
#[derive(Debug, Clone, Copy, PartialEq, Eq, Structural)]
pub enum Opcode {
    StandardQuery,
    InverseQuery,
    ServerStatusRequest,
}

impl Opcode {
    /// The exact mapping from a wire value to an opcode: 0, 1 and 2 name the
    /// three operations; everything else is `InvalidOpcode`.
    pub open spec fn spec_try_from(code: u8) -> Result<Opcode, DecodeError> {
        if code == 0 {
            Ok(Opcode::StandardQuery)
        } else if code == 1 {
            Ok(Opcode::InverseQuery)
        } else if code == 2 {
            Ok(Opcode::ServerStatusRequest)
        } else {
            Err(DecodeError::InvalidOpcode(code))
        }
    }

    pub fn try_from(code: u8) -> (r: Result<Opcode, DecodeError>)
        ensures
            r == Opcode::spec_try_from(code),
    {
        match code {
            0 => Ok(Opcode::StandardQuery),
            1 => Ok(Opcode::InverseQuery),
            2 => Ok(Opcode::ServerStatusRequest),
            _ => Err(DecodeError::InvalidOpcode(code)),
        }
    }
}

/// The outcome a response reports, from the 4-bit response-code field.
/// Any other 4-bit value is rejected as `InvalidResponseCode`.
#[derive(Debug, Clone, Copy, PartialEq, Eq, Structural)]
pub enum ResponseCode {
    NoError,
    FormatError,
    ServerFailure,
    NameError,
    NotImplemented,
    Refused,
}

impl ResponseCode {
    /// The exact mapping from a wire value to a response code: 0 through 5
    /// name the six outcomes; everything else is `InvalidResponseCode`.
    pub open spec fn spec_try_from(code: u8) -> Result<ResponseCode, DecodeError> {
        if code == 0 {
            Ok(ResponseCode::NoError)
        } else if code == 1 {
            Ok(ResponseCode::FormatError)
        } else if code == 2 {
            Ok(ResponseCode::ServerFailure)
        } else if code == 3 {
            Ok(ResponseCode::NameError)
        } else if code == 4 {
            Ok(ResponseCode::NotImplemented)
        } else if code == 5 {
            Ok(ResponseCode::Refused)
        } else {
            Err(DecodeError::InvalidResponseCode(code))
        }
    }

    pub fn try_from(code: u8) -> (r: Result<ResponseCode, DecodeError>)
        ensures
            r == ResponseCode::spec_try_from(code),
    {
        match code {
            0 => Ok(ResponseCode::NoError),
            1 => Ok(ResponseCode::FormatError),
            2 => Ok(ResponseCode::ServerFailure),
            3 => Ok(ResponseCode::NameError),
            4 => Ok(ResponseCode::NotImplemented),
            5 => Ok(ResponseCode::Refused),
            _ => Err(DecodeError::InvalidResponseCode(code)),
        }
    }
}

/// The decoded header. All fields are owned plain values; the section counts
/// are as the sender declared them and are not checked against the rest of
/// the buffer here (the question decoder does that as it reads).
#[derive(Debug, Clone, Copy, PartialEq, Eq, Structural)]
pub struct Header {
    pub id: u16,
    /// True when the QR bit is clear: the message is a query, not a response.
    pub is_query: bool,
    pub opcode: Opcode,
    pub is_authoritative_answer: bool,
    pub truncated: bool,
    pub recursion_desired: bool,
    pub recursion_available: bool,
    pub response_code: ResponseCode,
    pub questions: u16,
    pub answers: u16,
    pub nameservers: u16,
    pub additional: u16,
}

/// The big-endian 16-bit value held by two bytes.
pub open spec fn be_word(hi: u8, lo: u8) -> u16 {
    (hi * 256 + lo) as u16
}

/// The 4-bit opcode field of the first flags byte (bits 6 down to 3).
pub open spec fn opcode_bits(flags: u8) -> u8 {
    (flags >> 3) & 0x0F
}

/// The reserved Z bits of the second flags byte (bits 6 down to 4).
pub open spec fn reserved_bits(flags: u8) -> u8 {
    flags & 0x70
}

/// The 4-bit response-code field of the second flags byte (bits 3 down to 0).
pub open spec fn rcode_bits(flags: u8) -> u8 {
    flags & 0x0F
}

/// What decoding a header buffer yields: `MalformedHeader` unless exactly 12
/// bytes were given; then, in order, the opcode field, the reserved bits and
/// the response-code field are validated, and the first offence decides the
/// error; otherwise every field of the `Header`, extracted bit-exactly.
pub open spec fn spec_parse_header(b: Seq<u8>) -> Result<Header, DecodeError> {
    if b.len() != 12 {
        Err(DecodeError::MalformedHeader)
    } else if Opcode::spec_try_from(opcode_bits(b[2])) is Err {
        Err(DecodeError::InvalidOpcode(opcode_bits(b[2])))
    } else if reserved_bits(b[3]) != 0 {
        Err(DecodeError::ReservedBitSet)
    } else if ResponseCode::spec_try_from(rcode_bits(b[3])) is Err {
        Err(DecodeError::InvalidResponseCode(rcode_bits(b[3])))
    } else {
        Ok(Header {
            id: be_word(b[0], b[1]),
            is_query: b[2] & 0x80 == 0,
            opcode: Opcode::spec_try_from(opcode_bits(b[2])).unwrap(),
            is_authoritative_answer: b[2] & 0x04 != 0,
            truncated: b[2] & 0x02 != 0,
            recursion_desired: b[2] & 0x01 != 0,
            recursion_available: b[3] & 0x80 != 0,
            response_code: ResponseCode::spec_try_from(rcode_bits(b[3])).unwrap(),
            questions: be_word(b[4], b[5]),
            answers: be_word(b[6], b[7]),
            nameservers: be_word(b[8], b[9]),
            additional: be_word(b[10], b[11]),
        })
    }
}

/// Reads two bytes as one big-endian 16-bit value.
pub fn be_u16(hi: u8, lo: u8) -> (r: u16)
    ensures
        r == be_word(hi, lo),
{
    (hi as u16) * 256 + (lo as u16)
}

impl Header {
    /// Decodes the fixed 12-byte header region. A buffer of any other length
    /// is rejected as `MalformedHeader`; no byte outside the given slice is
    /// ever read.
    pub fn parse(buf: &[u8]) -> (r: Result<Header, DecodeError>)
        ensures
            r == spec_parse_header(buf@),
            buf@.len() != 12 ==> r == Err::<Header, DecodeError>(DecodeError::MalformedHeader),
    {
        if buf.len() != 12 {
            return Err(DecodeError::MalformedHeader);
        }
        let flags1 = buf[2];
        let flags2 = buf[3];
        let opcode = match Opcode::try_from((flags1 >> 3) & 0x0F) {
            Ok(o) => o,
            Err(e) => return Err(e),
        };
        if flags2 & 0x70 != 0 {
            return Err(DecodeError::ReservedBitSet);
        }
        let response_code = match ResponseCode::try_from(flags2 & 0x0F) {
            Ok(c) => c,
            Err(e) => return Err(e),
        };
        Ok(Header {
            id: be_u16(buf[0], buf[1]),
            is_query: flags1 & 0x80 == 0,
            opcode,
            is_authoritative_answer: flags1 & 0x04 != 0,
            truncated: flags1 & 0x02 != 0,
            recursion_desired: flags1 & 0x01 != 0,
            recursion_available: flags2 & 0x80 != 0,
            response_code,
            questions: be_u16(buf[4], buf[5]),
            answers: be_u16(buf[6], buf[7]),
            nameservers: be_u16(buf[8], buf[9]),
            additional: be_u16(buf[10], buf[11]),
        })
    }
}

/// For every 12-byte buffer, an opcode nibble of 3 or more is rejected as
/// `InvalidOpcode` carrying that nibble, while a successfully decoded header
/// always holds the variant named by its nibble (0, 1 or 2).
pub proof fn lemma_opcode_validation(b: Seq<u8>)
    requires
        b.len() == 12,
    ensures
        opcode_bits(b[2]) >= 3 ==> spec_parse_header(b) == Err::<Header, DecodeError>(
            DecodeError::InvalidOpcode(opcode_bits(b[2])),
        ),
        spec_parse_header(b) matches Ok(h) ==> Opcode::spec_try_from(opcode_bits(b[2])) == Ok::<
            Opcode,
            DecodeError,
        >(h.opcode),
{
}

/// A set reserved bit in the second flags byte is rejected as
/// `ReservedBitSet`. The opcode field is validated first, so the statement
/// is made for buffers whose opcode nibble is itself valid.
pub proof fn lemma_reserved_bit_rejected(b: Seq<u8>)
    requires
        b.len() == 12,
        reserved_bits(b[3]) != 0,
        opcode_bits(b[2]) <= 2,
    ensures
        spec_parse_header(b) == Err::<Header, DecodeError>(DecodeError::ReservedBitSet),
{
}

} // verus!
