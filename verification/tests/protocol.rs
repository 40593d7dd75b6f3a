use fastcgi_client::meta::{Header, RequestType, Role, BeginRequestRec, EndRequest, ProtocolStatus, HEADER_LEN, MAX_LENGTH, write_stream};
use fastcgi_client::params::{ParamLength, Params, encode_params, decode_length};
use fastcgi_client::ClientError;

#[test]
fn test_header_len() {
    assert_eq!(HEADER_LEN, 8);
}

#[test]
fn padding_completes_every_length_to_a_multiple_of_eight() {
    let content = vec![0u8; MAX_LENGTH];
    for len in 0..=MAX_LENGTH {
        let h = Header::new(RequestType::Stdin, 1, &content[..len]);
        assert!(h.padding_length < 8);
        assert_eq!((len + h.padding_length as usize) % 8, 0);
        assert_eq!(h.content_length as usize, len);
    }
}

#[test]
fn short_length_boundary_is_one_byte() {
    assert_eq!(ParamLength::new(127).content(), vec![127u8]);
}

#[test]
fn long_length_boundary_is_four_bytes_with_top_bit() {
    let bytes = ParamLength::new(128).content();
    assert_eq!(bytes, vec![0x80, 0x00, 0x00, 0x80]);
    assert!(bytes[0] & 0x80 != 0);
}

#[test]
fn length_roundtrips_at_both_boundaries() {
    for n in [0usize, 1, 127, 128, 129, 65535, 0x7fff_fffe, 0x7fff_ffff] {
        let enc = ParamLength::new(n).content();
        let (value, consumed) = decode_length(&enc).unwrap();
        assert_eq!(value as usize, n);
        assert_eq!(consumed, enc.len());
        if n < 128 {
            assert_eq!(enc.len(), 1);
        } else {
            assert_eq!(enc.len(), 4);
        }
    }
}

#[test]
fn decode_length_needs_all_prefix_bytes() {
    assert_eq!(decode_length(&[]), None);
    assert_eq!(decode_length(&[0x80, 0x00]), None);
    assert_eq!(decode_length(&[5]), Some((5, 1)));
}

#[test]
fn begin_request_record_is_bit_exact() {
    let rec = BeginRequestRec::new(1, Role::Responder, true);
    let mut buf: Vec<u8> = Vec::new();
    rec.write_to_stream(&mut buf);
    assert_eq!(
        buf,
        vec![
            0x01, 0x01, 0x00, 0x01, 0x00, 0x08, 0x00, 0x00, // header
            0x00, 0x01, 0x01, 0x00, 0x00, 0x00, 0x00, 0x00, // role, flags, reserve
        ]
    );
}

#[test]
fn params_pair_encodes_short_form() {
    let mut params = Params::new();
    params.insert(b"A".to_vec(), b"b".to_vec());
    let encoded = encode_params(&params);
    assert_eq!(encoded, vec![0x01, 0x01, 0x41, 0x62]);
}

#[test]
fn params_keep_insertion_order_and_use_long_form_when_needed() {
    let mut params = Params::new();
    params.insert(b"Z".to_vec(), b"1".to_vec());
    let long_value = vec![b'x'; 200];
    params.insert(b"A".to_vec(), long_value.clone());
    let encoded = encode_params(&params);
    // first pair, in insertion order, short form
    assert_eq!(&encoded[..4], &[0x01, 0x01, b'Z', b'1']);
    // second pair: short name length, long value length with top bit set
    assert_eq!(encoded[4], 0x01);
    assert_eq!(&encoded[5..9], &[0x80, 0x00, 0x00, 200]);
    assert_eq!(encoded[9], b'A');
    assert_eq!(&encoded[10..], &long_value[..]);
}

/// Walks a record stream, returning each record's (type, request id, content).
fn walk_records(buf: &[u8]) -> Vec<(RequestType, u16, Vec<u8>)> {
    let mut records = Vec::new();
    let mut off = 0usize;
    while off < buf.len() {
        let header = Header::new_from_stream(&buf[off..off + 8]).unwrap();
        off += 8;
        let clen = header.content_length as usize;
        let plen = header.padding_length as usize;
        let content = buf[off..off + clen].to_vec();
        // padding must be zero bytes
        assert!(buf[off + clen..off + clen + plen].iter().all(|&b| b == 0));
        off += clen + plen;
        records.push((header.record_type, header.request_id, content));
    }
    assert_eq!(off, buf.len());
    records
}

#[test]
fn chunked_stream_emits_k_plus_one_records_and_a_terminator() {
    // body of 65535 * 1 + 2 bytes: two non-empty records plus the empty one
    let body: Vec<u8> = (0..65537u32).map(|i| (i % 251) as u8).collect();
    let mut buf: Vec<u8> = Vec::new();
    write_stream(&mut buf, RequestType::Stdin, 9, &body);
    let records = walk_records(&buf);
    let non_empty: Vec<_> = records.iter().filter(|r| !r.2.is_empty()).collect();
    assert_eq!(non_empty.len(), 2);
    assert_eq!(records.len(), 3);
    let last = records.last().unwrap();
    assert_eq!(last.0, RequestType::Stdin);
    assert_eq!(last.1, 9);
    assert!(last.2.is_empty());
    let mut rebuilt: Vec<u8> = Vec::new();
    for r in &non_empty {
        assert!(r.2.len() <= MAX_LENGTH);
        rebuilt.extend_from_slice(&r.2);
    }
    assert_eq!(rebuilt, body);
}

#[test]
fn empty_stream_is_only_the_terminator() {
    let mut buf: Vec<u8> = Vec::new();
    write_stream(&mut buf, RequestType::Params, 3, &[]);
    let records = walk_records(&buf);
    assert_eq!(records.len(), 1);
    assert_eq!(records[0].0, RequestType::Params);
    assert_eq!(records[0].1, 3);
    assert!(records[0].2.is_empty());
}

#[test]
fn unknown_type_byte_is_a_decode_error() {
    let bytes = [1u8, 11, 0, 1, 0, 0, 0, 0];
    assert_eq!(
        Header::new_from_stream(&bytes),
        Err(ClientError::UnknownRecordType { type_byte: 11 })
    );
    let bytes = [1u8, 0, 0, 1, 0, 0, 0, 0];
    assert_eq!(
        Header::new_from_stream(&bytes),
        Err(ClientError::UnknownRecordType { type_byte: 0 })
    );
}

#[test]
fn end_request_payload_decodes_exit_code_and_status() {
    let content = [0x00u8, 0x00, 0x01, 0x02, 0x00, 0, 0, 0];
    let end = EndRequest::from_content(&content).unwrap();
    assert_eq!(end.app_status, 258);
    assert_eq!(end.protocol_status, ProtocolStatus::RequestComplete);
}

#[test]
fn end_request_payload_rejects_unknown_status() {
    let content = [0u8, 0, 0, 0, 9, 0, 0, 0];
    assert_eq!(
        EndRequest::from_content(&content),
        Err(ClientError::UnknownProtocolStatus { status_byte: 9 })
    );
}

#[test]
fn end_request_payload_rejects_short_content() {
    let content = [0u8, 0, 0, 0];
    assert_eq!(EndRequest::from_content(&content), Err(ClientError::MalformedRecord));
}
