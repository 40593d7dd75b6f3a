//! Client-side engine for a binary multiplexed record protocol: record
//! framing with padding, length-prefixed parameter encoding, chunked
//! stream writing, a request-id pool, and the response demultiplexer.
//!
//! The engine itself is pure: it turns plain values into wire bytes and
//! wire bytes back into plain values. Transports (sockets, async runtimes)
//! live outside and hand byte buffers in and out.

use vstd::prelude::*;

pub mod meta;
pub mod params;
pub mod id;
pub mod response;
pub mod client;

verus! {

/// Errors surfaced by the protocol engine.
#[derive(Debug, Clone, Copy, PartialEq, Eq, Structural)]
pub enum ClientError {
    /// The id pool was exhausted and no id was freed within the deadline.
    IdAllocationTimeout,
    /// An id was handed back that the pool does not consider in use.
    IdNotFound,
    /// A response record carried an id other than the one allocated.
    ResponseIdMismatch { expected: u16, got: u16 },
    /// A record header carried a type byte outside the protocol's range.
    UnknownRecordType { type_byte: u8 },
    /// A recognized record type arrived where it is not valid.
    UnexpectedRecordType { record_type: meta::RequestType },
    /// An end-request payload carried a status byte outside the enumeration.
    UnknownProtocolStatus { status_byte: u8 },
    /// A record payload was too short for its declared shape.
    MalformedRecord,
    /// A local sink accepted fewer bytes than it was given.
    TruncatedWrite { record_type: meta::RequestType, written: usize, requested: usize },
    /// The underlying transport failed or ended before the exchange did.
    Io,
    /// The peer finished the request with a non-complete protocol status.
    ApplicationError { protocol_status: meta::ProtocolStatus, app_status: u32 },
}

pub type ClientResult<T> = Result<T, ClientError>;

} // verus!
