//! Decoder for the wire format of DNS messages: the fixed 12-byte header and
//! the question section (length-prefixed domain-name labels followed by query
//! type and query class), as framed by RFC 1035 for a single datagram.
//!
//! Decoding is a pure function from a byte buffer to a structured value or a
//! typed error; transport I/O is left to the caller. Name-compression
//! pointers are a known limitation: a length byte with the two high bits set
//! is treated as an ordinary label length.
use vstd::prelude::*;

pub mod header;
pub mod message;

verus! {

/// Every way a decode call can fail. Decoding stops at the first error; no
/// partial value is returned.
#[derive(Debug, Clone, Copy, PartialEq, Eq, Structural)]
pub enum DecodeError {
    /// The fixed header region was given with a length other than 12 bytes.
    MalformedHeader,
    /// A header bit that the protocol fixes at zero was set.
    ReservedBitSet,
    /// The 4-bit opcode field held a value outside the recognized set.
    InvalidOpcode(u8),
    /// The 4-bit response-code field held a value outside the recognized set.
    InvalidResponseCode(u8),
    /// The 16-bit query-type field held a value outside the recognized set.
    InvalidQType(u16),
    /// The 16-bit query-class field held a value outside the recognized set.
    InvalidQClass(u16),
    /// A label's bytes were not valid UTF-8 text.
    InvalidLabelEncoding,
    /// The buffer ended before a structurally required field was fully read.
    UnexpectedEof,
}

} // verus!
