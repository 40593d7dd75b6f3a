//! Record codec: the fixed 8-byte frame header, the begin-request and
//! end-request payloads, and the chunked stream writer that splits a long
//! byte sequence into records capped at the maximum payload size.

use vstd::prelude::*;

use crate::ClientError;

verus! {

/// Protocol version carried in every header this client writes.
pub const VERSION_1: u8 = 1;

/// Largest content length a single record can carry.
pub const MAX_LENGTH: usize = 0xffff;

/// Wire size of a frame header.
pub const HEADER_LEN: usize = 8;

/// The closed set of record types the protocol defines.
#[derive(Debug, Clone, Copy, PartialEq, Eq, Structural)]
pub enum RequestType {
    BeginRequest,
    AbortRequest,
    EndRequest,
    Params,
    Stdin,
    Stdout,
    Stderr,
    Data,
    GetValues,
    GetValuesResult,
}

/// Wire value of a record type.
pub open spec fn request_type_byte(t: RequestType) -> u8 {
    match t {
        RequestType::BeginRequest => 1,
        RequestType::AbortRequest => 2,
        RequestType::EndRequest => 3,
        RequestType::Params => 4,
        RequestType::Stdin => 5,
        RequestType::Stdout => 6,
        RequestType::Stderr => 7,
        RequestType::Data => 8,
        RequestType::GetValues => 9,
        RequestType::GetValuesResult => 10,
    }
}

impl RequestType {
    pub fn to_u8(self) -> (b: u8)
        ensures
            b == request_type_byte(self),
    {
        match self {
            RequestType::BeginRequest => 1,
            RequestType::AbortRequest => 2,
            RequestType::EndRequest => 3,
            RequestType::Params => 4,
            RequestType::Stdin => 5,
            RequestType::Stdout => 6,
            RequestType::Stderr => 7,
            RequestType::Data => 8,
            RequestType::GetValues => 9,
            RequestType::GetValuesResult => 10,
        }
    }

    /// Unrecognized wire values decode to `None`, never to a variant.
    pub fn from_u8(b: u8) -> (r: Option<RequestType>)
        ensures
            r is Some <==> 1 <= b <= 10,
            r is Some ==> request_type_byte(r->0) == b,
    {
        match b {
            1 => Some(RequestType::BeginRequest),
            2 => Some(RequestType::AbortRequest),
            3 => Some(RequestType::EndRequest),
            4 => Some(RequestType::Params),
            5 => Some(RequestType::Stdin),
            6 => Some(RequestType::Stdout),
            7 => Some(RequestType::Stderr),
            8 => Some(RequestType::Data),
            9 => Some(RequestType::GetValues),
            10 => Some(RequestType::GetValuesResult),
            _ => None,
        }
    }
}

/// Zero bytes a record of the given content length carries after its
/// content, bringing content plus padding to a multiple of eight.
pub open spec fn padding_of(content_length: int) -> int {
    (8 - content_length % 8) % 8
}

/// Big-endian bytes of a 16-bit value.
pub open spec fn u16_be(v: u16) -> Seq<u8> {
    seq![(v / 256) as u8, (v % 256) as u8]
}

/// Big-endian bytes of a 32-bit value.
pub open spec fn u32_be(v: u32) -> Seq<u8> {
    seq![
        (v / 0x1000000) as u8,
        ((v / 0x10000) % 256) as u8,
        ((v / 256) % 256) as u8,
        (v % 256) as u8,
    ]
}

/// The 32-bit value that four big-endian bytes spell.
pub open spec fn be32(b0: u8, b1: u8, b2: u8, b3: u8) -> u32 {
    ((b0 as int) * 0x1000000 + (b1 as int) * 0x10000 + (b2 as int) * 256 + (b3 as int)) as u32
}

/// The 16-bit value that two big-endian bytes spell.
pub open spec fn be16(b0: u8, b1: u8) -> u16 {
    ((b0 as int) * 256 + (b1 as int)) as u16
}

/// A run of zero bytes.
pub open spec fn zeroes(n: int) -> Seq<u8> {
    Seq::new(n as nat, |i: int| 0u8)
}

/// The fixed 8-byte frame header.
#[derive(Debug, Clone, Copy, PartialEq, Eq, Structural)]
pub struct Header {
    pub version: u8,
    pub record_type: RequestType,
    pub request_id: u16,
    pub content_length: u16,
    pub padding_length: u8,
    pub reserved: u8,
}

/// Wire bytes of a header this client writes for the given content length.
pub open spec fn header_bytes(t: RequestType, request_id: u16, content_length: u16) -> Seq<u8> {
    seq![VERSION_1, request_type_byte(t)] + u16_be(request_id) + u16_be(content_length)
        + seq![padding_of(content_length as int) as u8, 0u8]
}

/// Wire bytes of one whole record: header, content, padding.
pub open spec fn record_bytes(t: RequestType, request_id: u16, content: Seq<u8>) -> Seq<u8>
    recommends
        content.len() <= MAX_LENGTH,
{
    header_bytes(t, request_id, content.len() as u16) + content
        + zeroes(padding_of(content.len() as int))
}

/// Wire bytes of the data records that carry `content`, one record per
/// chunk of at most `MAX_LENGTH` bytes; empty content yields no record.
pub open spec fn records_bytes(t: RequestType, request_id: u16, content: Seq<u8>) -> Seq<u8>
    decreases content.len(),
{
    if content.len() == 0 {
        Seq::empty()
    } else if content.len() <= MAX_LENGTH {
        record_bytes(t, request_id, content)
    } else {
        record_bytes(t, request_id, content.take(MAX_LENGTH as int))
            + records_bytes(t, request_id, content.skip(MAX_LENGTH as int))
    }
}

/// Wire bytes of a whole logical stream: the data records followed by the
/// mandatory zero-length record that marks the end of the stream.
pub open spec fn stream_bytes(t: RequestType, request_id: u16, content: Seq<u8>) -> Seq<u8> {
    records_bytes(t, request_id, content) + record_bytes(t, request_id, Seq::empty())
}

/// A header matches a content buffer when writing both produces one
/// well-formed record of this client's own making.
pub open spec fn header_matches(h: Header, content: Seq<u8>) -> bool {
    &&& content.len() <= MAX_LENGTH
    &&& h.version == VERSION_1
    &&& h.content_length == content.len()
    &&& h.padding_length == padding_of(content.len() as int)
    &&& h.reserved == 0
}

/// Padding never reaches eight bytes and always completes the content to a
/// multiple of eight.
pub proof fn lemma_padding_invariant(content_length: int)
    requires
        0 <= content_length <= 0xffff,
    ensures
        0 <= padding_of(content_length) < 8,
        (content_length + padding_of(content_length)) % 8 == 0,
{
    assert(0 <= padding_of(content_length) < 8);
    assert((content_length + (8 - content_length % 8) % 8) % 8 == 0) by (nonlinear_arith);
}

/// Appends the big-endian bytes of a 16-bit value.
pub fn push_u16_be(sink: &mut Vec<u8>, v: u16)
    ensures
        final(sink)@ == old(sink)@ + u16_be(v),
{
    sink.push((v / 256) as u8);
    sink.push((v % 256) as u8);
    assert(sink@ =~= old(sink)@ + u16_be(v));
}

/// Appends the big-endian bytes of a 32-bit value.
pub fn push_u32_be(sink: &mut Vec<u8>, v: u32)
    ensures
        final(sink)@ == old(sink)@ + u32_be(v),
{
    sink.push((v / 0x1000000) as u8);
    sink.push(((v / 0x10000) % 256) as u8);
    sink.push(((v / 256) % 256) as u8);
    sink.push((v % 256) as u8);
    assert(sink@ =~= old(sink)@ + u32_be(v));
}

/// Appends a byte slice.
pub fn push_bytes(sink: &mut Vec<u8>, bytes: &[u8])
    ensures
        final(sink)@ == old(sink)@ + bytes@,
{
    let mut i: usize = 0;
    while i < bytes.len()
        invariant
            i <= bytes@.len(),
            sink@ == old(sink)@ + bytes@.take(i as int),
        decreases bytes@.len() - i,
    {
        sink.push(*vstd::slice::slice_index_get(bytes, i));
        assert(sink@ =~= old(sink)@ + bytes@.take(i as int + 1));
        i = i + 1;
    }
    assert(sink@ =~= old(sink)@ + bytes@);
}

/// Appends a run of zero bytes.
pub fn push_zeroes(sink: &mut Vec<u8>, n: usize)
    ensures
        final(sink)@ == old(sink)@ + zeroes(n as int),
{
    let mut i: usize = 0;
    while i < n
        invariant
            i <= n,
            sink@ == old(sink)@ + zeroes(i as int),
        decreases n - i,
    {
        sink.push(0u8);
        assert(sink@ =~= old(sink)@ + zeroes(i as int + 1));
        i = i + 1;
    }
}

impl Header {
    /// A fresh header for one record carrying `content`.
    pub fn new(record_type: RequestType, request_id: u16, content: &[u8]) -> (h: Header)
        requires
            content@.len() <= MAX_LENGTH,
        ensures
            h.version == VERSION_1,
            h.record_type == record_type,
            h.request_id == request_id,
            h.content_length == content@.len(),
            h.padding_length == padding_of(content@.len() as int),
            h.reserved == 0,
            header_matches(h, content@),
    {
        let content_length = content.len() as u16;
        let padding_length: u8 = ((8 - content_length % 8) % 8) as u8;
        Header {
            version: VERSION_1,
            record_type,
            request_id,
            content_length,
            padding_length,
            reserved: 0,
        }
    }

    /// Decodes a header from exactly eight wire bytes. The only decode
    /// failure is an unrecognized type byte; the version byte is not
    /// validated, matching the protocol's leniency toward future versions.
    pub fn new_from_stream(bytes: &[u8]) -> (r: Result<Header, ClientError>)
        requires
            bytes@.len() == 8,
        ensures
            r == parse_header(bytes@),
    {
        let type_byte = *vstd::slice::slice_index_get(bytes, 1);
        match RequestType::from_u8(type_byte) {
            None => Err(ClientError::UnknownRecordType { type_byte }),
            Some(record_type) => {
                let b2 = *vstd::slice::slice_index_get(bytes, 2);
                let b3 = *vstd::slice::slice_index_get(bytes, 3);
                let b4 = *vstd::slice::slice_index_get(bytes, 4);
                let b5 = *vstd::slice::slice_index_get(bytes, 5);
                Ok(Header {
                    version: *vstd::slice::slice_index_get(bytes, 0),
                    record_type,
                    request_id: (b2 as u16) * 256 + (b3 as u16),
                    content_length: (b4 as u16) * 256 + (b5 as u16),
                    padding_length: *vstd::slice::slice_index_get(bytes, 6),
                    reserved: *vstd::slice::slice_index_get(bytes, 7),
                })
            },
        }
    }

    /// Writes one record: this header, its content, then the padding.
    pub fn write_to_stream(self, sink: &mut Vec<u8>, content: &[u8])
        requires
            header_matches(self, content@),
        ensures
            final(sink)@ == old(sink)@ + record_bytes(self.record_type, self.request_id, content@),
    {
        sink.push(self.version);
        sink.push(self.record_type.to_u8());
        push_u16_be(sink, self.request_id);
        push_u16_be(sink, self.content_length);
        sink.push(self.padding_length);
        sink.push(self.reserved);
        push_bytes(sink, content);
        push_zeroes(sink, self.padding_length as usize);
        assert(sink@ =~= old(sink)@
            + record_bytes(self.record_type, self.request_id, content@));
    }

    /// Writes the data records for `content`, one per chunk of at most
    /// `MAX_LENGTH` bytes. Empty content writes nothing; the zero-length
    /// end-of-stream record is the stream writer's to add.
    pub fn write_to_stream_batches(
        record_type: RequestType,
        request_id: u16,
        sink: &mut Vec<u8>,
        content: &[u8],
    )
        ensures
            final(sink)@ == old(sink)@ + records_bytes(record_type, request_id, content@),
        decreases content@.len(),
    {
        if content.len() == 0 {
            assert(sink@ =~= old(sink)@ + records_bytes(record_type, request_id, content@));
        } else if content.len() <= MAX_LENGTH {
            let header = Header::new(record_type, request_id, content);
            header.write_to_stream(sink, content);
        } else {
            let first = vstd::slice::slice_subrange(content, 0, MAX_LENGTH);
            let rest = vstd::slice::slice_subrange(content, MAX_LENGTH, content.len());
            assert(first@ =~= content@.take(MAX_LENGTH as int));
            assert(rest@ =~= content@.skip(MAX_LENGTH as int));
            let header = Header::new(record_type, request_id, first);
            header.write_to_stream(sink, first);
            Header::write_to_stream_batches(record_type, request_id, sink, rest);
            assert(sink@ =~= old(sink)@
                + records_bytes(record_type, request_id, content@));
        }
    }
}

/// Header decoding as a mathematical function of the eight wire bytes.
pub open spec fn parse_header(bytes: Seq<u8>) -> Result<Header, ClientError>
    recommends
        bytes.len() == 8,
{
    if 1 <= bytes[1] <= 10 {
        Ok(Header {
            version: bytes[0],
            record_type: request_type_of_byte(bytes[1]),
            request_id: be16(bytes[2], bytes[3]),
            content_length: be16(bytes[4], bytes[5]),
            padding_length: bytes[6],
            reserved: bytes[7],
        })
    } else {
        Err(ClientError::UnknownRecordType { type_byte: bytes[1] })
    }
}

/// The record type a wire byte in range stands for.
pub open spec fn request_type_of_byte(b: u8) -> RequestType
    recommends
        1 <= b <= 10,
{
    if b == 1 {
        RequestType::BeginRequest
    } else if b == 2 {
        RequestType::AbortRequest
    } else if b == 3 {
        RequestType::EndRequest
    } else if b == 4 {
        RequestType::Params
    } else if b == 5 {
        RequestType::Stdin
    } else if b == 6 {
        RequestType::Stdout
    } else if b == 7 {
        RequestType::Stderr
    } else if b == 8 {
        RequestType::Data
    } else if b == 9 {
        RequestType::GetValues
    } else {
        RequestType::GetValuesResult
    }
}

/// The chunks the stream writer cuts `content` into, in order: full
/// `MAX_LENGTH` chunks with the remainder last; empty content has none.
pub open spec fn chunks_of(content: Seq<u8>) -> Seq<Seq<u8>>
    decreases content.len(),
{
    if content.len() == 0 {
        Seq::empty()
    } else if content.len() <= MAX_LENGTH {
        seq![content]
    } else {
        seq![content.take(MAX_LENGTH as int)] + chunks_of(content.skip(MAX_LENGTH as int))
    }
}

/// Wire bytes of one record per chunk, in order.
pub open spec fn records_of_chunks(t: RequestType, request_id: u16, chunks: Seq<Seq<u8>>) -> Seq<u8>
    decreases chunks.len(),
{
    if chunks.len() == 0 {
        Seq::empty()
    } else {
        record_bytes(t, request_id, chunks.first())
            + records_of_chunks(t, request_id, chunks.drop_first())
    }
}

/// The data records of a stream are exactly one record per chunk.
pub proof fn lemma_records_are_chunked(t: RequestType, request_id: u16, content: Seq<u8>)
    ensures
        records_bytes(t, request_id, content)
            == records_of_chunks(t, request_id, chunks_of(content)),
    decreases content.len(),
{
    if content.len() == 0 {
    } else if content.len() <= MAX_LENGTH {
        let chunks = seq![content];
        assert(chunks.first() == content);
        assert(chunks.drop_first() =~= Seq::<Seq<u8>>::empty());
        assert(records_of_chunks(t, request_id, Seq::<Seq<u8>>::empty())
            == Seq::<u8>::empty());
        assert(records_of_chunks(t, request_id, chunks) =~= record_bytes(t, request_id, content));
    } else {
        let head = seq![content.take(MAX_LENGTH as int)];
        let rest = chunks_of(content.skip(MAX_LENGTH as int));
        lemma_records_are_chunked(t, request_id, content.skip(MAX_LENGTH as int));
        assert((head + rest).first() == content.take(MAX_LENGTH as int));
        assert((head + rest).drop_first() =~= rest);
        assert(records_of_chunks(t, request_id, head + rest)
            =~= record_bytes(t, request_id, content.take(MAX_LENGTH as int))
                + records_of_chunks(t, request_id, rest));
    }
}

/// Concatenating the chunks reconstructs the content exactly, and every
/// chunk is non-empty and within the record payload cap.
pub proof fn lemma_chunks_reconstruct(content: Seq<u8>)
    ensures
        chunks_of(content).flatten() == content,
        forall|i: int|
            0 <= i < chunks_of(content).len()
                ==> 0 < (#[trigger] chunks_of(content)[i]).len() <= MAX_LENGTH,
    decreases content.len(),
{
    if content.len() == 0 {
        assert(chunks_of(content).flatten() =~= content);
    } else if content.len() <= MAX_LENGTH {
        let chunks = seq![content];
        assert(chunks.drop_first() =~= Seq::<Seq<u8>>::empty());
        assert(chunks.drop_first().flatten() =~= Seq::<u8>::empty());
        assert(chunks.flatten() =~= content);
    } else {
        let head = content.take(MAX_LENGTH as int);
        let tail = content.skip(MAX_LENGTH as int);
        lemma_chunks_reconstruct(tail);
        let chunks = chunks_of(content);
        assert(chunks.first() == head);
        assert(chunks.drop_first() =~= chunks_of(tail));
        assert(chunks.flatten() == head + chunks_of(tail).flatten());
        assert(head + tail =~= content);
        assert forall|i: int| 0 <= i < chunks.len()
            implies 0 < (#[trigger] chunks[i]).len() <= MAX_LENGTH by {
            if i > 0 {
                assert(chunks[i] == chunks_of(tail)[i - 1]);
            }
        }
    }
}

/// A content of `MAX_LENGTH * k + r` bytes, `0 < r < MAX_LENGTH`, cuts
/// into exactly `k + 1` chunks — so its stream is `k + 1` non-empty
/// records followed by the one empty end-of-stream record.
pub proof fn lemma_chunking_complete(content: Seq<u8>, k: int, r: int)
    requires
        content.len() == 65535 * k + r,
        0 < r < 65535,
        k >= 0,
    ensures
        chunks_of(content).len() == k + 1,
        chunks_of(content).flatten() == content,
        forall|i: int|
            0 <= i < chunks_of(content).len()
                ==> 0 < (#[trigger] chunks_of(content)[i]).len() <= MAX_LENGTH,
    decreases k,
{
    lemma_chunks_reconstruct(content);
    if k == 0 {
    } else {
        let tail = content.skip(MAX_LENGTH as int);
        assert(65535 * k + r - 65535 == 65535 * (k - 1) + r) by (nonlinear_arith);
        lemma_chunking_complete(tail, k - 1, r);
        assert(chunks_of(content).len() == 1 + chunks_of(tail).len());
    }
}

/// The application-server behavior mode a request asks for. Only
/// `Responder` is exercised by this client; the others are representable.
#[derive(Debug, Clone, Copy, PartialEq, Eq, Structural)]
pub enum Role {
    Responder,
    Authorizer,
    Filter,
}

/// Wire value of a role.
pub open spec fn role_value(r: Role) -> u16 {
    match r {
        Role::Responder => 1,
        Role::Authorizer => 2,
        Role::Filter => 3,
    }
}

impl Role {
    pub fn to_u16(self) -> (v: u16)
        ensures
            v == role_value(self),
    {
        match self {
            Role::Responder => 1,
            Role::Authorizer => 2,
            Role::Filter => 3,
        }
    }
}

/// Payload of a begin-request record.
#[derive(Debug, Clone, Copy)]
pub struct BeginRequest {
    pub role: Role,
    pub flags: u8,
    pub reserved: [u8; 5],
}

/// Wire bytes of a begin-request payload: role, flags, five zero bytes.
pub open spec fn begin_request_bytes(role: Role, flags: u8) -> Seq<u8> {
    u16_be(role_value(role)) + seq![flags] + zeroes(5)
}

impl BeginRequest {
    /// Flag bit zero is the keep-alive flag.
    pub fn new(role: Role, keep_alive: bool) -> (r: BeginRequest)
        ensures
            r.role == role,
            r.flags == if keep_alive { 1u8 } else { 0u8 },
            r.reserved@ == zeroes(5),
    {
        let reserved: [u8; 5] = [0; 5];
        proof {
            assert(reserved@ =~= zeroes(5));
        }
        BeginRequest { role, flags: if keep_alive { 1 } else { 0 }, reserved }
    }

    /// The eight payload bytes of this begin-request.
    pub fn to_content(&self) -> (r: Vec<u8>)
        ensures
            r@ == begin_request_bytes(self.role, self.flags),
            r@.len() == 8,
    {
        let mut buf: Vec<u8> = Vec::new();
        push_u16_be(&mut buf, self.role.to_u16());
        buf.push(self.flags);
        push_zeroes(&mut buf, 5);
        assert(buf@ =~= begin_request_bytes(self.role, self.flags));
        buf
    }
}

/// A begin-request record ready to be written: header plus payload.
#[derive(Debug)]
pub struct BeginRequestRec {
    pub header: Header,
    pub begin_request: BeginRequest,
    pub content: Vec<u8>,
}

impl BeginRequestRec {
    pub fn new(request_id: u16, role: Role, keep_alive: bool) -> (r: BeginRequestRec)
        ensures
            r.begin_request.role == role,
            r.begin_request.flags == if keep_alive { 1u8 } else { 0u8 },
            r.begin_request.reserved@ == zeroes(5),
            r.content@ == begin_request_bytes(role, if keep_alive { 1u8 } else { 0u8 }),
            header_matches(r.header, r.content@),
            r.header.record_type == RequestType::BeginRequest,
            r.header.request_id == request_id,
            r.header.content_length == 8,
    {
        let begin_request = BeginRequest::new(role, keep_alive);
        let content = begin_request.to_content();
        let header = Header::new(RequestType::BeginRequest, request_id, content.as_slice());
        BeginRequestRec { header, begin_request, content }
    }

    /// Writes the whole begin-request record; its payload is eight bytes,
    /// so it needs no padding.
    pub fn write_to_stream(self, sink: &mut Vec<u8>)
        requires
            header_matches(self.header, self.content@),
        ensures
            final(sink)@ == old(sink)@
                + record_bytes(self.header.record_type, self.header.request_id, self.content@),
    {
        let content = self.content;
        self.header.write_to_stream(sink, content.as_slice());
    }
}

/// The peer's verdict on how a request concluded.
#[derive(Debug, Clone, Copy, PartialEq, Eq, Structural)]
pub enum ProtocolStatus {
    RequestComplete,
    CantMpxConn,
    Overloaded,
    UnknownRole,
}

/// Wire value of a protocol status.
pub open spec fn protocol_status_byte(s: ProtocolStatus) -> u8 {
    match s {
        ProtocolStatus::RequestComplete => 0,
        ProtocolStatus::CantMpxConn => 1,
        ProtocolStatus::Overloaded => 2,
        ProtocolStatus::UnknownRole => 3,
    }
}

impl ProtocolStatus {
    pub fn to_u8(self) -> (b: u8)
        ensures
            b == protocol_status_byte(self),
    {
        match self {
            ProtocolStatus::RequestComplete => 0,
            ProtocolStatus::CantMpxConn => 1,
            ProtocolStatus::Overloaded => 2,
            ProtocolStatus::UnknownRole => 3,
        }
    }

    /// Unrecognized wire values decode to `None`, never to a variant.
    pub fn from_u8(b: u8) -> (r: Option<ProtocolStatus>)
        ensures
            r is Some <==> b <= 3,
            r is Some ==> protocol_status_byte(r->0) == b,
    {
        match b {
            0 => Some(ProtocolStatus::RequestComplete),
            1 => Some(ProtocolStatus::CantMpxConn),
            2 => Some(ProtocolStatus::Overloaded),
            3 => Some(ProtocolStatus::UnknownRole),
            _ => None,
        }
    }

    /// A complete request is a success; every other status is a distinct
    /// failure carrying the status and the application's exit code.
    pub fn convert_to_client_result(self, app_status: u32) -> (r: Result<(), ClientError>)
        ensures
            self is RequestComplete ==> r == Ok::<(), ClientError>(()),
            !(self is RequestComplete) ==> r == Err::<(), ClientError>(
                ClientError::ApplicationError { protocol_status: self, app_status },
            ),
    {
        match self {
            ProtocolStatus::RequestComplete => Ok(()),
            _ => Err(ClientError::ApplicationError { protocol_status: self, app_status }),
        }
    }
}

/// Payload of an end-request record: the application's exit code and the
/// protocol's verdict. The three reserved payload bytes carry nothing and
/// are dropped on decode.
#[derive(Debug, Clone, Copy, PartialEq, Eq, Structural)]
pub struct EndRequest {
    pub app_status: u32,
    pub protocol_status: ProtocolStatus,
}

/// End-request decoding as a mathematical function of the payload bytes:
/// a 32-bit big-endian exit code, a status byte, and ignored reserve.
pub open spec fn end_request_parse(content: Seq<u8>) -> Result<EndRequest, ClientError> {
    if content.len() < 8 {
        Err(ClientError::MalformedRecord)
    } else if content[4] > 3 {
        Err(ClientError::UnknownProtocolStatus { status_byte: content[4] })
    } else {
        Ok(EndRequest {
            app_status: be32(content[0], content[1], content[2], content[3]),
            protocol_status: protocol_status_of_byte(content[4]),
        })
    }
}

/// The protocol status a wire byte in range stands for.
pub open spec fn protocol_status_of_byte(b: u8) -> ProtocolStatus
    recommends
        b <= 3,
{
    if b == 0 {
        ProtocolStatus::RequestComplete
    } else if b == 1 {
        ProtocolStatus::CantMpxConn
    } else if b == 2 {
        ProtocolStatus::Overloaded
    } else {
        ProtocolStatus::UnknownRole
    }
}

impl EndRequest {
    /// Decodes an end-request payload from a record's content bytes.
    pub fn from_content(content: &[u8]) -> (r: Result<EndRequest, ClientError>)
        ensures
            r == end_request_parse(content@),
    {
        if content.len() < 8 {
            return Err(ClientError::MalformedRecord);
        }
        let b0 = *vstd::slice::slice_index_get(content, 0);
        let b1 = *vstd::slice::slice_index_get(content, 1);
        let b2 = *vstd::slice::slice_index_get(content, 2);
        let b3 = *vstd::slice::slice_index_get(content, 3);
        let status_byte = *vstd::slice::slice_index_get(content, 4);
        match ProtocolStatus::from_u8(status_byte) {
            None => Err(ClientError::UnknownProtocolStatus { status_byte }),
            Some(protocol_status) => {
                let app_status = (b0 as u32) * 0x1000000 + (b1 as u32) * 0x10000
                    + (b2 as u32) * 256 + (b3 as u32);
                Ok(EndRequest { app_status, protocol_status })
            },
        }
    }
}

/// Writes one whole logical stream: the data records for `content`, then
/// the zero-length record that marks the end of the stream. An empty
/// content writes only the end-of-stream record.
pub fn write_stream(sink: &mut Vec<u8>, record_type: RequestType, request_id: u16, content: &[u8])
    ensures
        final(sink)@ == old(sink)@ + stream_bytes(record_type, request_id, content@),
{
    Header::write_to_stream_batches(record_type, request_id, sink, content);
    let empty: Vec<u8> = Vec::new();
    let header = Header::new(record_type, request_id, empty.as_slice());
    header.write_to_stream(sink, empty.as_slice());
    assert(sink@ =~= old(sink)@ + stream_bytes(record_type, request_id, content@));
}

} // verus!
