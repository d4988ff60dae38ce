use dns_codec::codes::{RecordType, ResponseCode};
use dns_codec::error::DnsError;
use dns_codec::header::Header;
use dns_codec::message::{
    a_record_query, decode_header, decode_question, decode_record, decode_records, encode_query,
    process_server_response, Message,
};
use dns_codec::cursor::Cursor;

const ID: (u8, u8) = (0x07, 0x09);

const EXAMPLE_COM: [u8; 13] =
    [0x07, b'e', b'x', b'a', b'm', b'p', b'l', b'e', 0x03, b'c', b'o', b'm', 0x00];

fn head(flags: u16, qd: u16, an: u16, ns: u16, ar: u16) -> Vec<u8> {
    let mut v = vec![ID.0, ID.1];
    for w in [flags, qd, an, ns, ar] {
        v.extend_from_slice(&w.to_be_bytes());
    }
    v
}

fn question(rtype: u16) -> Vec<u8> {
    let mut v = EXAMPLE_COM.to_vec();
    v.extend_from_slice(&rtype.to_be_bytes());
    v.extend_from_slice(&[0x00, 0x01]);
    v
}

fn record(name: &[u8], rtype: u16, ttl: u32, rdlength: u16, rdata: &[u8]) -> Vec<u8> {
    let mut v = name.to_vec();
    v.extend_from_slice(&rtype.to_be_bytes());
    v.extend_from_slice(&[0x00, 0x01]);
    v.extend_from_slice(&ttl.to_be_bytes());
    v.extend_from_slice(&rdlength.to_be_bytes());
    v.extend_from_slice(rdata);
    v
}

fn response_with_one_answer() -> Vec<u8> {
    let mut v = head(0x8180, 1, 1, 0, 0);
    v.extend(question(1));
    v.extend(record(&EXAMPLE_COM, 1, 3600, 4, &[93, 184, 216, 34]));
    v
}

fn labels(m: &Message) -> Vec<Vec<u8>> {
    m.question.name.labels.clone()
}

#[test]
fn a_record_query_for_example_com() {
    let packet = a_record_query("example.com", (0x07, 0x09)).unwrap();
    assert_eq!(
        &packet[..12],
        &[0x07, 0x09, 0x01, 0x00, 0x00, 0x01, 0x00, 0x00, 0x00, 0x00, 0x00, 0x00]
    );
    assert_eq!(&packet[12..25], &EXAMPLE_COM);
    assert_eq!(&packet[25..], &[0x00, 0x01, 0x00, 0x01]);
    assert_eq!(packet.len(), 29);
}

#[test]
fn encode_query_puts_the_record_type_behind_the_name() {
    let packet = encode_query("example.com", RecordType::Mx, (0xab, 0xcd)).unwrap();
    assert_eq!(&packet[..4], &[0xab, 0xcd, 0x01, 0x00]);
    assert_eq!(&packet[25..], &[0x00, 0x0f, 0x00, 0x01]);
    let packet = encode_query("a", RecordType::Txt, (0, 0)).unwrap();
    assert_eq!(
        packet,
        vec![0, 0, 1, 0, 0, 1, 0, 0, 0, 0, 0, 0, 1, b'a', 0, 0x00, 0x10, 0x00, 0x01]
    );
    assert_eq!(
        encode_query("example.com", RecordType::A, ID),
        a_record_query("example.com", ID)
    );
}

#[test]
fn encode_query_length_follows_the_name() {
    for host in ["", "a", "example.com", "www.example.co.uk"] {
        let name = dns_codec::name::encode_name(host.as_bytes()).unwrap();
        let packet = a_record_query(host, ID).unwrap();
        assert_eq!(packet.len(), 12 + name.len() + 4);
        assert_eq!(&packet[12..12 + name.len()], &name[..]);
    }
}

#[test]
fn encode_query_refuses_what_the_name_refuses() {
    let long_label = "a".repeat(64);
    assert_eq!(a_record_query(&long_label, ID), Err(DnsError::LabelTooLong));
    let long_name = ["a".repeat(63), "b".repeat(63), "c".repeat(63), "d".repeat(62)].join(".");
    assert_eq!(a_record_query(&long_name, ID), Err(DnsError::NameTooLong));
    assert_eq!(encode_query(&long_name, RecordType::Ns, ID), Err(DnsError::NameTooLong));
}

#[test]
fn decode_response_with_one_answer() {
    let m = process_server_response(response_with_one_answer(), ID).unwrap();
    assert_eq!(m.id, ID);
    assert_eq!(
        m.header,
        Header { flags: 0x8180, qdcount: 1, ancount: 1, nscount: 0, arcount: 0 }
    );
    assert_eq!(m.rcode, ResponseCode::NoError);
    assert_eq!(labels(&m), vec![b"example".to_vec(), b"com".to_vec()]);
    assert_eq!(m.question.qtype, RecordType::A);
    assert_eq!(m.question.qclass, 1);
    assert_eq!(m.records.len(), 1);
    let r = &m.records[0];
    assert_eq!(r.name.labels, vec![b"example".to_vec(), b"com".to_vec()]);
    assert_eq!(r.rtype, RecordType::A);
    assert_eq!(r.class, 1);
    assert_eq!(r.ttl, 3600);
    assert_eq!(r.rdlength, 4);
    assert_eq!(r.rdata, vec![93, 184, 216, 34]);
}

#[test]
fn decode_rdlength_beyond_the_buffer_is_end_of_input() {
    let mut v = head(0x8180, 1, 1, 0, 0);
    v.extend(question(1));
    v.extend(record(&EXAMPLE_COM, 1, 3600, 10, &[93, 184, 216, 34]));
    assert_eq!(process_server_response(v, ID), Err(DnsError::UnexpectedEndOfInput));
    let mut v = head(0x8180, 1, 1, 0, 0);
    v.extend(question(1));
    v.extend(record(&EXAMPLE_COM, 1, 3600, 0xffff, &[]));
    assert_eq!(process_server_response(v, ID), Err(DnsError::UnexpectedEndOfInput));
    let mut v = head(0x8180, 1, 2, 0, 0);
    v.extend(question(1));
    v.extend(record(&EXAMPLE_COM, 1, 3600, 4, &[93, 184, 216, 34]));
    v.extend(record(&EXAMPLE_COM, 1, 3600, 5, &[93, 184, 216, 34]));
    assert_eq!(process_server_response(v, ID), Err(DnsError::UnexpectedEndOfInput));
}

#[test]
fn decode_record_with_rdlength_beyond_the_buffer_gives_no_record() {
    let bytes = record(&EXAMPLE_COM, 1, 3600, 5, &[1, 2, 3, 4]);
    let mut cur = Cursor::new(&bytes);
    assert_eq!(decode_record(&mut cur), Err(DnsError::UnexpectedEndOfInput));
    let bytes = record(&EXAMPLE_COM, 1, 3600, 4, &[1, 2, 3, 4]);
    let mut cur = Cursor::new(&bytes);
    let r = decode_record(&mut cur).unwrap();
    assert_eq!(r.rdata, vec![1, 2, 3, 4]);
    assert_eq!(cur.pos, bytes.len());
}

#[test]
fn decode_other_transaction_id_is_refused_first() {
    let mut v = response_with_one_answer();
    v[1] = 0x0a;
    assert_eq!(
        process_server_response(v, ID),
        Err(DnsError::TransactionIdMismatch { expected: (0x07, 0x09), actual: (0x07, 0x0a) })
    );
    let mut v = response_with_one_answer();
    v[0] = 0xff;
    assert_eq!(
        process_server_response(v, ID),
        Err(DnsError::TransactionIdMismatch { expected: (0x07, 0x09), actual: (0xff, 0x09) })
    );
    assert_eq!(
        process_server_response(vec![0x09, 0x07], ID),
        Err(DnsError::TransactionIdMismatch { expected: (0x07, 0x09), actual: (0x09, 0x07) })
    );
    assert_eq!(
        process_server_response(vec![1, 2, 0xff, 0xff, 0xc0], ID),
        Err(DnsError::TransactionIdMismatch { expected: (0x07, 0x09), actual: (1, 2) })
    );
}

#[test]
fn decode_buffer_shorter_than_the_id_is_end_of_input() {
    assert_eq!(process_server_response(vec![], ID), Err(DnsError::UnexpectedEndOfInput));
    assert_eq!(process_server_response(vec![0x07], ID), Err(DnsError::UnexpectedEndOfInput));
    assert_eq!(process_server_response(vec![0x08], ID), Err(DnsError::UnexpectedEndOfInput));
}

#[test]
fn decode_header_cut_short_is_end_of_input() {
    let full = head(0x8180, 1, 0, 0, 0);
    for len in 2..12 {
        assert_eq!(
            process_server_response(full[..len].to_vec(), ID),
            Err(DnsError::UnexpectedEndOfInput)
        );
    }
    assert_eq!(process_server_response(full, ID), Err(DnsError::UnexpectedEndOfInput));
}

#[test]
fn decode_question_cut_short_is_end_of_input() {
    let mut full = head(0x8180, 1, 0, 0, 0);
    full.extend(question(1));
    for len in 12..full.len() {
        assert_eq!(
            process_server_response(full[..len].to_vec(), ID),
            Err(DnsError::UnexpectedEndOfInput)
        );
    }
    assert!(process_server_response(full, ID).is_ok());
}

#[test]
fn decode_record_type_99_is_unknown() {
    let mut v = head(0x8180, 1, 0, 0, 0);
    v.extend(question(99));
    assert_eq!(process_server_response(v, ID), Err(DnsError::UnknownRecordType(99)));
    let mut v = head(0x8180, 1, 1, 0, 0);
    v.extend(question(1));
    v.extend(record(&EXAMPLE_COM, 99, 3600, 4, &[1, 2, 3, 4]));
    assert_eq!(process_server_response(v, ID), Err(DnsError::UnknownRecordType(99)));
}

#[test]
fn decode_unknown_record_type_in_a_later_record() {
    let mut v = head(0x8180, 1, 1, 0, 1);
    v.extend(question(1));
    v.extend(record(&EXAMPLE_COM, 1, 3600, 4, &[1, 2, 3, 4]));
    v.extend(record(&[0], 41, 0, 0, &[]));
    assert_eq!(process_server_response(v, ID), Err(DnsError::UnknownRecordType(41)));
}

#[test]
fn decode_unknown_response_code_is_refused() {
    let mut v = head(0x8186, 1, 0, 0, 0);
    v.extend(question(1));
    assert_eq!(process_server_response(v, ID), Err(DnsError::UnknownResponseCode(6)));
    let mut v = head(0x818f, 1, 0, 0, 0);
    v.extend(question(1));
    assert_eq!(process_server_response(v, ID), Err(DnsError::UnknownResponseCode(15)));
}

#[test]
fn decode_known_response_codes() {
    let codes = [
        ResponseCode::NoError,
        ResponseCode::FormatError,
        ResponseCode::ServerFailure,
        ResponseCode::NameError,
        ResponseCode::NotImplemented,
        ResponseCode::Refused,
    ];
    for (i, c) in codes.iter().enumerate() {
        let mut v = head(0x8180 + i as u16, 1, 0, 0, 0);
        v.extend(question(1));
        let m = process_server_response(v, ID).unwrap();
        assert_eq!(m.rcode, *c);
        assert_eq!(m.header.rcode(), i as u8);
    }
}

#[test]
fn decode_compression_pointer_is_refused() {
    let mut v = head(0x8180, 1, 1, 0, 0);
    v.extend(question(1));
    v.extend(record(&[0xc0, 0x0c], 1, 3600, 4, &[93, 184, 216, 34]));
    assert_eq!(process_server_response(v, ID), Err(DnsError::InvalidLabelLength));
}

#[test]
fn decode_twice_gives_equal_messages() {
    let bytes = response_with_one_answer();
    let first = process_server_response(bytes.clone(), ID);
    let second = process_server_response(bytes.clone(), ID);
    assert!(first.is_ok());
    assert_eq!(first, second);
    let mut bad = bytes.clone();
    bad.truncate(40);
    assert_eq!(
        process_server_response(bad.clone(), ID),
        process_server_response(bad, ID)
    );
}

#[test]
fn decode_reads_one_question_whatever_qdcount_says() {
    for qd in [0u16, 1, 2, 0xffff] {
        let mut v = head(0x8180, qd, 0, 0, 0);
        v.extend(question(15));
        let m = process_server_response(v, ID).unwrap();
        assert_eq!(m.header.qdcount, qd);
        assert_eq!(m.question.qtype, RecordType::Mx);
        assert!(m.records.is_empty());
    }
}

#[test]
fn decode_reads_as_many_records_as_the_counts_say() {
    let mut v = head(0x8180, 1, 1, 1, 1);
    v.extend(question(1));
    v.extend(record(&EXAMPLE_COM, 1, 60, 4, &[1, 2, 3, 4]));
    v.extend(record(&EXAMPLE_COM, 2, 61, 2, &[5, 6]));
    v.extend(record(&[0], 16, 62, 0, &[]));
    let m = process_server_response(v, ID).unwrap();
    assert_eq!(m.records.len(), 3);
    assert_eq!(m.records[0].rtype, RecordType::A);
    assert_eq!(m.records[1].rtype, RecordType::Ns);
    assert_eq!(m.records[1].ttl, 61);
    assert_eq!(m.records[1].rdata, vec![5, 6]);
    assert_eq!(m.records[2].rtype, RecordType::Txt);
    assert!(m.records[2].name.labels.is_empty());
    assert!(m.records[2].rdata.is_empty());
}

#[test]
fn decode_announced_record_that_is_missing_is_end_of_input() {
    let mut v = head(0x8180, 1, 1, 0, 0);
    v.extend(question(1));
    assert_eq!(process_server_response(v, ID), Err(DnsError::UnexpectedEndOfInput));
    let mut v = head(0x8180, 1, 0, 0, 2);
    v.extend(question(1));
    v.extend(record(&EXAMPLE_COM, 1, 60, 4, &[1, 2, 3, 4]));
    assert_eq!(process_server_response(v, ID), Err(DnsError::UnexpectedEndOfInput));
}

#[test]
fn decode_does_not_look_behind_the_last_record() {
    let mut v = head(0x8180, 1, 0, 0, 0);
    v.extend(question(1));
    v.extend_from_slice(&[0xff, 0xc0, 0x0c]);
    let m = process_server_response(v, ID).unwrap();
    assert!(m.records.is_empty());
}

#[test]
fn decode_ttl_is_a_plain_32_bit_count() {
    let mut v = head(0x8180, 1, 1, 0, 0);
    v.extend(question(1));
    v.extend(record(&EXAMPLE_COM, 1, 0xffff_ffff, 0, &[]));
    let m = process_server_response(v, ID).unwrap();
    assert_eq!(m.records[0].ttl, u32::MAX);
}

#[test]
fn decode_of_an_encoded_query_gives_the_query_back() {
    let packet = encode_query("www.example.com", RecordType::Cname, ID).unwrap();
    let m = process_server_response(packet, ID).unwrap();
    assert_eq!(
        m.header,
        Header { flags: 0x0100, qdcount: 1, ancount: 0, nscount: 0, arcount: 0 }
    );
    assert!(!m.header.qr());
    assert_eq!(m.header.opcode(), 0);
    assert!(m.header.rd());
    assert_eq!(m.rcode, ResponseCode::NoError);
    assert_eq!(m.question.name.to_dotted(), b"www.example.com".to_vec());
    assert_eq!(m.question.qtype, RecordType::Cname);
    assert_eq!(m.question.qclass, 1);
    assert!(m.records.is_empty());
}

#[test]
fn decode_steps_move_the_cursor() {
    let bytes = response_with_one_answer();
    let mut cur = Cursor::new(&bytes);
    cur.pos = 2;
    let h = decode_header(&mut cur).unwrap();
    assert_eq!(h.ancount, 1);
    assert_eq!(cur.pos, 12);
    let q = decode_question(&mut cur).unwrap();
    assert_eq!(q.qtype, RecordType::A);
    assert_eq!(cur.pos, 29);
    let rs = decode_records(&mut cur, 1).unwrap();
    assert_eq!(rs.len(), 1);
    assert_eq!(cur.pos, bytes.len());
    assert_eq!(decode_records(&mut cur, 0), Ok(vec![]));
    assert_eq!(decode_records(&mut cur, 1), Err(DnsError::UnexpectedEndOfInput));
}
