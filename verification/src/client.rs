//! Exchange engine for one logical request: builds every byte the client
//! sends, and demultiplexes the bytes the peer sends back.
//!
//! The engine is pure. The sending half turns (parameters, body) into the
//! exact wire bytes of one request; the receiving half is a state machine
//! that is fed exactly the bytes it asks for and accumulates the response.
//! The transport that carries the bytes lives outside and drives both.

use vstd::prelude::*;

use crate::ClientError;
use crate::meta::{
    RequestType, Role, Header, BeginRequestRec, EndRequest,
    begin_request_bytes, record_bytes, stream_bytes, parse_header, end_request_parse,
    write_stream, ProtocolStatus,
};
use crate::params::{Params, params_bytes, encode_params};
use crate::response::Response;

verus! {

/// Every byte one request sends: the begin-request record, the params
/// stream (its records and its end-of-stream record), and the stdin
/// stream carrying the body.
pub open spec fn request_bytes(
    keep_alive: bool,
    request_id: u16,
    pairs: Seq<(Seq<u8>, Seq<u8>)>,
    body: Seq<u8>,
) -> Seq<u8> {
    record_bytes(
        RequestType::BeginRequest,
        request_id,
        begin_request_bytes(Role::Responder, if keep_alive { 1u8 } else { 0u8 }),
    ) + stream_bytes(RequestType::Params, request_id, params_bytes(pairs))
        + stream_bytes(RequestType::Stdin, request_id, body)
}

/// Appends the whole request to the sink: begin-request for the
/// responder role, then the encoded parameters as a params stream, then
/// the body as a stdin stream, each stream closed by its empty record.
pub fn handle_fastcgi_request(
    sink: &mut Vec<u8>,
    keep_alive: bool,
    request_id: u16,
    params: &Params,
    body: &[u8],
)
    requires
        params.wf(),
    ensures
        final(sink)@ == old(sink)@
            + request_bytes(keep_alive, request_id, params.view_pairs(), body@),
{
    let begin_request_rec = BeginRequestRec::new(request_id, Role::Responder, keep_alive);
    begin_request_rec.write_to_stream(sink);
    let content = encode_params(params);
    write_stream(sink, RequestType::Params, request_id, content.as_slice());
    write_stream(sink, RequestType::Stdin, request_id, body);
    assert(sink@ =~= old(sink)@
        + request_bytes(keep_alive, request_id, params.view_pairs(), body@));
}

/// Where the response reader stands: waiting for a header, waiting for
/// one record's content and padding, or finished with the end-request.
#[derive(Debug, Clone, Copy, PartialEq, Eq, Structural)]
pub enum ReaderState {
    ExpectHeader,
    ExpectContent { record_type: RequestType, content_length: u16, padding_length: u8 },
    Done { end: EndRequest },
}

/// How many bytes the reader needs next: a whole header, or one record's
/// content together with its padding, or nothing once done.
pub open spec fn needed_spec(s: ReaderState) -> int {
    match s {
        ReaderState::ExpectHeader => 8,
        ReaderState::ExpectContent { content_length, padding_length, .. } =>
            content_length + padding_length,
        ReaderState::Done { .. } => 0,
    }
}

/// One transition of the response reader on exactly the bytes it asked
/// for. A header moves the reader to that record's content if the record
/// is a response record for this request; content is appended to the
/// channel it belongs to; an end-request payload finishes the exchange.
pub open spec fn step_spec(
    request_id: u16,
    s: ReaderState,
    stdout: Seq<u8>,
    stderr: Seq<u8>,
    input: Seq<u8>,
) -> Result<(ReaderState, Seq<u8>, Seq<u8>), ClientError>
    recommends
        input.len() == needed_spec(s),
        !(s is Done),
{
    match s {
        ReaderState::ExpectHeader => match parse_header(input) {
            Err(e) => Err(e),
            Ok(h) => if h.request_id != request_id {
                Err(ClientError::ResponseIdMismatch { expected: request_id, got: h.request_id })
            } else if h.record_type is Stdout || h.record_type is Stderr
                || h.record_type is EndRequest {
                Ok((
                    ReaderState::ExpectContent {
                        record_type: h.record_type,
                        content_length: h.content_length,
                        padding_length: h.padding_length,
                    },
                    stdout,
                    stderr,
                ))
            } else {
                Err(ClientError::UnexpectedRecordType { record_type: h.record_type })
            },
        },
        ReaderState::ExpectContent { record_type, content_length, .. } => {
            let content = input.take(content_length as int);
            match record_type {
                RequestType::Stdout => Ok((ReaderState::ExpectHeader, stdout + content, stderr)),
                RequestType::Stderr => Ok((ReaderState::ExpectHeader, stdout, stderr + content)),
                RequestType::EndRequest => match end_request_parse(content) {
                    Err(e) => Err(e),
                    Ok(end) => Ok((ReaderState::Done { end }, stdout, stderr)),
                },
                _ => Err(ClientError::MalformedRecord),
            }
        },
        ReaderState::Done { .. } => Err(ClientError::MalformedRecord),
    }
}

/// Rank that makes the reader's zero-byte transition decrease: content
/// states sit above the states a zero-byte step can move to.
pub open spec fn state_rank(s: ReaderState) -> int {
    match s {
        ReaderState::ExpectContent { .. } => 1,
        _ => 0,
    }
}

/// Runs the reader over a whole byte sequence: what one request's
/// response bytes demultiplex to, or the first error. Bytes that run out
/// before the end-request are the transport's failure.
pub open spec fn run_spec(
    request_id: u16,
    s: ReaderState,
    stdout: Seq<u8>,
    stderr: Seq<u8>,
    bytes: Seq<u8>,
) -> Result<(Seq<u8>, Seq<u8>, EndRequest), ClientError>
    decreases bytes.len(), state_rank(s),
{
    match s {
        ReaderState::Done { end } => Ok((stdout, stderr, end)),
        _ => {
            let n = needed_spec(s);
            if bytes.len() < n {
                Err(ClientError::Io)
            } else {
                match step_spec(request_id, s, stdout, stderr, bytes.take(n)) {
                    Err(e) => Err(e),
                    Ok((s2, so2, se2)) => run_spec(request_id, s2, so2, se2, bytes.skip(n)),
                }
            }
        },
    }
}

/// What one request's whole response comes to: the two output channels
/// and the application's exit code on a complete request, or the error —
/// a protocol failure carried in the end-request becomes the application
/// error for that status.
pub open spec fn response_outcome(
    request_id: u16,
    bytes: Seq<u8>,
) -> Result<(Seq<u8>, Seq<u8>, u32), ClientError> {
    match run_spec(request_id, ReaderState::ExpectHeader, Seq::empty(), Seq::empty(), bytes) {
        Err(e) => Err(e),
        Ok((stdout, stderr, end)) => if end.protocol_status is RequestComplete {
            Ok((stdout, stderr, end.app_status))
        } else {
            Err(ClientError::ApplicationError {
                protocol_status: end.protocol_status,
                app_status: end.app_status,
            })
        },
    }
}

/// Incremental reader for one request's response records. The transport
/// asks `needed`, reads exactly that many bytes, and feeds them back;
/// the reader demultiplexes them into the response.
pub struct ResponseReader {
    pub request_id: u16,
    pub state: ReaderState,
    pub response: Response,
}

impl ResponseReader {
    /// A reader expecting the first record header of the response to the
    /// request with this identifier.
    pub fn new(request_id: u16) -> (r: ResponseReader)
        ensures
            r.request_id == request_id,
            r.state == ReaderState::ExpectHeader,
            r.response.stdout@ == Seq::<u8>::empty(),
            r.response.stderr@ == Seq::<u8>::empty(),
    {
        ResponseReader { request_id, state: ReaderState::ExpectHeader, response: Response::new() }
    }

    /// How many bytes to read from the transport next.
    pub fn needed(&self) -> (n: usize)
        ensures
            n == needed_spec(self.state),
    {
        match self.state {
            ReaderState::ExpectHeader => 8,
            ReaderState::ExpectContent { content_length, padding_length, .. } =>
                content_length as usize + padding_length as usize,
            ReaderState::Done { .. } => 0,
        }
    }

    /// Whether the end-request has arrived.
    pub fn is_done(&self) -> (b: bool)
        ensures
            b == (self.state is Done),
    {
        match self.state {
            ReaderState::Done { .. } => true,
            _ => false,
        }
    }

    /// Consumes exactly the bytes asked for and takes one step. On an
    /// error the reader is unchanged and the response stream can no
    /// longer be trusted; the error says why.
    pub fn feed(&mut self, input: &[u8]) -> (r: Result<(), ClientError>)
        requires
            input@.len() == needed_spec(old(self).state),
            !(old(self).state is Done),
        ensures
            final(self).request_id == old(self).request_id,
            match step_spec(
                old(self).request_id,
                old(self).state,
                old(self).response.stdout@,
                old(self).response.stderr@,
                input@,
            ) {
                Ok(step) => {
                    &&& r is Ok
                    &&& final(self).state == step.0
                    &&& final(self).response.stdout@ == step.1
                    &&& final(self).response.stderr@ == step.2
                },
                Err(e) => {
                    &&& r == Err::<(), ClientError>(e)
                    &&& final(self).state == old(self).state
                    &&& final(self).response.stdout@ == old(self).response.stdout@
                    &&& final(self).response.stderr@ == old(self).response.stderr@
                },
            },
    {
        let state = self.state;
        match state {
            ReaderState::ExpectHeader => {
                let h = match Header::new_from_stream(input) {
                    Ok(h) => h,
                    Err(e) => {
                        return Err(e);
                    },
                };
                if h.request_id != self.request_id {
                    return Err(ClientError::ResponseIdMismatch {
                        expected: self.request_id,
                        got: h.request_id,
                    });
                }
                match h.record_type {
                    RequestType::Stdout | RequestType::Stderr | RequestType::EndRequest => {
                        self.state = ReaderState::ExpectContent {
                            record_type: h.record_type,
                            content_length: h.content_length,
                            padding_length: h.padding_length,
                        };
                        Ok(())
                    },
                    _ => Err(ClientError::UnexpectedRecordType { record_type: h.record_type }),
                }
            },
            ReaderState::ExpectContent { record_type, content_length, .. } => {
                let content = vstd::slice::slice_subrange(input, 0, content_length as usize);
                proof {
                    assert(content@ =~= input@.take(content_length as int));
                }
                match record_type {
                    RequestType::Stdout => {
                        crate::meta::push_bytes(&mut self.response.stdout, content);
                        self.state = ReaderState::ExpectHeader;
                        Ok(())
                    },
                    RequestType::Stderr => {
                        crate::meta::push_bytes(&mut self.response.stderr, content);
                        self.state = ReaderState::ExpectHeader;
                        Ok(())
                    },
                    RequestType::EndRequest => {
                        match EndRequest::from_content(content) {
                            Err(e) => Err(e),
                            Ok(end) => {
                                self.state = ReaderState::Done { end };
                                Ok(())
                            },
                        }
                    },
                    _ => Err(ClientError::MalformedRecord),
                }
            },
            ReaderState::Done { .. } => {
                proof {
                    assert(false);
                }
                Err(ClientError::MalformedRecord)
            },
        }
    }

    /// The end-request, once it has arrived.
    pub fn end(&self) -> (r: Option<EndRequest>)
        ensures
            match self.state {
                ReaderState::Done { end } => r == Some(end),
                _ => r is None,
            },
    {
        match self.state {
            ReaderState::Done { end } => Some(end),
            _ => None,
        }
    }

    /// Gives the accumulated response to the caller.
    pub fn into_response(self) -> (r: Response)
        ensures
            r == self.response,
    {
        self.response
    }
}

/// Demultiplexes one request's whole response from a byte buffer: reads
/// record after record, appends stdout and stderr content to the
/// accumulator, and resolves the end-request's protocol status. Exactly
/// the buffers that `response_outcome` accepts succeed, with exactly
/// that outcome.
pub fn handle_fastcgi_response(bytes: &[u8], request_id: u16) -> (r: Result<
    (Response, u32),
    ClientError,
>)
    ensures
        match response_outcome(request_id, bytes@) {
            Ok(out) => {
                &&& r is Ok
                &&& (r->Ok_0).0.stdout@ == out.0
                &&& (r->Ok_0).0.stderr@ == out.1
                &&& (r->Ok_0).1 == out.2
            },
            Err(e) => r == Err::<(Response, u32), ClientError>(e),
        },
{
    let mut reader = ResponseReader::new(request_id);
    let mut offset: usize = 0;
    proof {
        assert(bytes@.skip(0) =~= bytes@);
    }
    while !reader.is_done()
        invariant
            offset <= bytes@.len(),
            reader.request_id == request_id,
            run_spec(
                request_id,
                ReaderState::ExpectHeader,
                Seq::empty(),
                Seq::empty(),
                bytes@,
            ) == run_spec(
                request_id,
                reader.state,
                reader.response.stdout@,
                reader.response.stderr@,
                bytes@.skip(offset as int),
            ),
        decreases bytes@.len() - offset, state_rank(reader.state),
    {
        let n = reader.needed();
        if bytes.len() - offset < n {
            proof {
                assert(bytes@.skip(offset as int).len() < n);
            }
            return Err(ClientError::Io);
        }
        let chunk = vstd::slice::slice_subrange(bytes, offset, offset + n);
        let ghost remaining = bytes@.skip(offset as int);
        proof {
            assert(chunk@ =~= remaining.take(n as int));
        }
        match reader.feed(chunk) {
            Err(e) => {
                return Err(e);
            },
            Ok(()) => {
                proof {
                    assert(remaining.skip(n as int) =~= bytes@.skip(offset as int + n));
                }
                offset = offset + n;
            },
        }
    }
    let end = match reader.end() {
        Some(end) => end,
        None => {
            proof {
                assert(false);
            }
            return Err(ClientError::Io);
        },
    };
    if let ProtocolStatus::RequestComplete = end.protocol_status {
        Ok((reader.into_response(), end.app_status))
    } else {
        Err(ClientError::ApplicationError {
            protocol_status: end.protocol_status,
            app_status: end.app_status,
        })
    }
}

} // verus!
