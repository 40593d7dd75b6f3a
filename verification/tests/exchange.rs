use fastcgi_client::client::{handle_fastcgi_request, handle_fastcgi_response, ResponseReader};
use fastcgi_client::id::RequestIdGenerator;
use fastcgi_client::meta::{Header, RequestType, ProtocolStatus};
use fastcgi_client::params::Params;
use fastcgi_client::ClientError;
use std::collections::HashSet;

/// One record as the peer would send it.
fn record(record_type: RequestType, request_id: u16, content: &[u8]) -> Vec<u8> {
    let header = Header::new(record_type, request_id, content);
    let mut buf = vec![
        header.version,
        header.record_type.to_u8(),
        (request_id / 256) as u8,
        (request_id % 256) as u8,
        (header.content_length / 256) as u8,
        (header.content_length % 256) as u8,
        header.padding_length,
        0,
    ];
    buf.extend_from_slice(content);
    buf.extend(std::iter::repeat(0u8).take(header.padding_length as usize));
    buf
}

fn end_request_content(app_status: u32, status: ProtocolStatus) -> Vec<u8> {
    vec![
        (app_status >> 24) as u8,
        (app_status >> 16) as u8,
        (app_status >> 8) as u8,
        app_status as u8,
        status.to_u8(),
        0,
        0,
        0,
    ]
}

#[test]
fn allocator_hands_out_distinct_ids_and_times_out_when_exhausted() {
    let mut gen = RequestIdGenerator::new(1500);
    assert_eq!(gen.timeout_ms(), 1500);
    assert_eq!(gen.free_count(), 65535);
    let mut seen: HashSet<u16> = HashSet::new();
    for _ in 0..65535 {
        let id = gen.allocate().unwrap();
        assert!(id >= 1);
        assert!(seen.insert(id), "id {} handed out twice", id);
    }
    assert_eq!(gen.free_count(), 0);
    assert_eq!(gen.allocate(), Err(ClientError::IdAllocationTimeout));
    assert_eq!(gen.release(123), Ok(()));
    assert_eq!(gen.free_count(), 1);
    assert_eq!(gen.allocate(), Ok(123));
}

#[test]
fn releasing_an_unallocated_id_is_reported() {
    let mut gen = RequestIdGenerator::new(1500);
    assert_eq!(gen.release(5), Err(ClientError::IdNotFound));
    assert_eq!(gen.release(0), Err(ClientError::IdNotFound));
    assert_eq!(gen.free_count(), 65535);
    let id = gen.allocate().unwrap();
    assert_eq!(gen.release(id), Ok(()));
    assert_eq!(gen.release(id), Err(ClientError::IdNotFound));
}

#[test]
fn request_bytes_carry_begin_params_and_stdin_streams() {
    let mut params = Params::new();
    params.insert(b"A".to_vec(), b"b".to_vec());
    let mut sink: Vec<u8> = Vec::new();
    handle_fastcgi_request(&mut sink, false, 1, &params, &[]);
    let mut expected: Vec<u8> = Vec::new();
    // begin-request: role responder, keep-alive off
    expected.extend_from_slice(&record(
        RequestType::BeginRequest,
        1,
        &[0x00, 0x01, 0x00, 0x00, 0x00, 0x00, 0x00, 0x00],
    ));
    // params stream: one record with the short-form pair, then its terminator
    expected.extend_from_slice(&record(RequestType::Params, 1, &[0x01, 0x01, 0x41, 0x62]));
    expected.extend_from_slice(&record(RequestType::Params, 1, &[]));
    // stdin stream: empty body, terminator only
    expected.extend_from_slice(&record(RequestType::Stdin, 1, &[]));
    assert_eq!(sink, expected);
}

#[test]
fn end_to_end_exchange_returns_stdout_and_releases_the_id() {
    let mut gen = RequestIdGenerator::new(1500);
    let free_before = gen.free_count();
    let id = gen.allocate().unwrap();

    let mut params = Params::new();
    params.insert(b"A".to_vec(), b"b".to_vec());
    let mut sink: Vec<u8> = Vec::new();
    handle_fastcgi_request(&mut sink, true, id, &params, &[]);
    assert!(!sink.is_empty());

    // scripted peer: one stdout record saying "ok", then a complete end-request
    let mut scripted: Vec<u8> = Vec::new();
    scripted.extend_from_slice(&record(RequestType::Stdout, id, b"ok"));
    scripted.extend_from_slice(&record(
        RequestType::EndRequest,
        id,
        &end_request_content(0, ProtocolStatus::RequestComplete),
    ));

    let (response, app_status) = handle_fastcgi_response(&scripted, id).unwrap();
    assert_eq!(response.stdout, b"ok".to_vec());
    assert!(response.stderr.is_empty());
    assert_eq!(app_status, 0);

    assert_eq!(gen.release(id), Ok(()));
    assert_eq!(gen.free_count(), free_before);
}

#[test]
fn mismatched_response_id_fails_and_the_id_is_still_released() {
    let mut gen = RequestIdGenerator::new(1500);
    let free_before = gen.free_count();
    let id = gen.allocate().unwrap();
    let foreign = if id == 1 { 2 } else { 1 };

    let mut scripted: Vec<u8> = Vec::new();
    scripted.extend_from_slice(&record(RequestType::Stdout, foreign, b"ok"));

    let outcome = handle_fastcgi_response(&scripted, id);
    assert_eq!(
        outcome.unwrap_err(),
        ClientError::ResponseIdMismatch { expected: id, got: foreign }
    );

    assert_eq!(gen.release(id), Ok(()));
    assert_eq!(gen.free_count(), free_before);
}

#[test]
fn stderr_records_land_on_the_stderr_channel() {
    let mut scripted: Vec<u8> = Vec::new();
    scripted.extend_from_slice(&record(RequestType::Stdout, 7, b"out"));
    scripted.extend_from_slice(&record(RequestType::Stderr, 7, b"err"));
    scripted.extend_from_slice(&record(RequestType::Stdout, 7, b"put"));
    scripted.extend_from_slice(&record(
        RequestType::EndRequest,
        7,
        &end_request_content(3, ProtocolStatus::RequestComplete),
    ));
    let (response, app_status) = handle_fastcgi_response(&scripted, 7).unwrap();
    assert_eq!(response.stdout, b"output".to_vec());
    assert_eq!(response.stderr, b"err".to_vec());
    assert_eq!(app_status, 3);
}

#[test]
fn unexpected_record_type_in_a_response_fails() {
    let scripted = record(RequestType::Data, 4, b"x");
    assert_eq!(
        handle_fastcgi_response(&scripted, 4).unwrap_err(),
        ClientError::UnexpectedRecordType { record_type: RequestType::Data }
    );
}

#[test]
fn truncated_response_is_a_transport_failure() {
    let mut scripted = record(RequestType::Stdout, 4, b"ok");
    scripted.truncate(9);
    assert_eq!(handle_fastcgi_response(&scripted, 4).unwrap_err(), ClientError::Io);
    // a lone header with content that never arrives
    let scripted = record(RequestType::EndRequest, 4, &[]);
    // header claims 0 content; with no end-request the stream just ends
    assert_eq!(
        handle_fastcgi_response(&scripted[..8], 4).unwrap_err(),
        ClientError::MalformedRecord
    );
}

#[test]
fn non_complete_protocol_status_is_an_application_error() {
    let scripted = record(
        RequestType::EndRequest,
        2,
        &end_request_content(7, ProtocolStatus::Overloaded),
    );
    assert_eq!(
        handle_fastcgi_response(&scripted, 2).unwrap_err(),
        ClientError::ApplicationError {
            protocol_status: ProtocolStatus::Overloaded,
            app_status: 7,
        }
    );
}

#[test]
fn reader_reports_what_it_needs_step_by_step() {
    let mut reader = ResponseReader::new(5);
    assert_eq!(reader.needed(), 8);
    assert!(!reader.is_done());
    let rec = record(RequestType::Stdout, 5, b"hi");
    assert_eq!(reader.feed(&rec[..8]), Ok(()));
    // two content bytes plus six padding bytes
    assert_eq!(reader.needed(), 8);
    assert_eq!(reader.feed(&rec[8..16]), Ok(()));
    assert_eq!(reader.needed(), 8);
    let end = record(
        RequestType::EndRequest,
        5,
        &end_request_content(0, ProtocolStatus::RequestComplete),
    );
    assert_eq!(reader.feed(&end[..8]), Ok(()));
    assert_eq!(reader.feed(&end[8..16]), Ok(()));
    assert!(reader.is_done());
    assert_eq!(reader.needed(), 0);
    let response = reader.into_response();
    assert_eq!(response.stdout, b"hi".to_vec());
}
