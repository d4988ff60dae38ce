use vstd::prelude::*;
use vstd::slice::slice_to_vec;
use vstd::string::StringSliceAdditionalSpecFns;
use crate::codes::{RecordType, ResponseCode};
use crate::cursor::Cursor;
use crate::error::DnsError;
use crate::header::{Flags, Header};
use crate::laws::{lemma_parse_message_ok, lemma_parse_record_ok, lemma_parse_records_ok};
use crate::name::{
    bytes_result, decode_name, encode_name, encode_name_spec, labels_ok, parse_name, DomainName,
};
use crate::wire::{high_byte, low_byte, parse_u16, parse_u32, split_u16};

verus! {

/// The class of the Internet, the only one that queries are made for.
pub const CLASS_IN: u16 = 1;

/// What a message asks: a name, a record type and a class.
#[derive(Debug, PartialEq, Eq)]
pub struct Question {
    pub name: DomainName,
    pub qtype: RecordType,
    pub qclass: u16,
}

/// A question as a mathematical value.
pub struct QuestionView {
    pub name: Seq<Seq<u8>>,
    pub qtype: RecordType,
    pub qclass: u16,
}

impl View for Question {
    type V = QuestionView;

    open spec fn view(&self) -> QuestionView {
        QuestionView { name: self.name@, qtype: self.qtype, qclass: self.qclass }
    }
}

/// One record of an answer, authority or additional section. The data is kept
/// as the bytes read, whatever the record type.
#[derive(Debug, PartialEq, Eq)]
pub struct ResourceRecord {
    pub name: DomainName,
    pub rtype: RecordType,
    pub class: u16,
    pub ttl: u32,
    pub rdlength: u16,
    pub rdata: Vec<u8>,
}

/// A resource record as a mathematical value.
pub struct RecordView {
    pub name: Seq<Seq<u8>>,
    pub rtype: RecordType,
    pub class: u16,
    pub ttl: u32,
    pub rdlength: u16,
    pub rdata: Seq<u8>,
}

impl RecordView {
    /// The labels of the name have 1 to 63 bytes, and the data has as many
    /// bytes as the length field says.
    pub open spec fn wf(&self) -> bool {
        labels_ok(self.name) && self.rdata.len() == self.rdlength
    }
}

impl View for ResourceRecord {
    type V = RecordView;

    open spec fn view(&self) -> RecordView {
        RecordView {
            name: self.name@,
            rtype: self.rtype,
            class: self.class,
            ttl: self.ttl,
            rdlength: self.rdlength,
            rdata: self.rdata@,
        }
    }
}

/// A decoded message: the transaction id, the header, the response code that
/// the header names, the question, and the records of the answer, authority
/// and additional sections in the order in which they were read.
#[derive(Debug, PartialEq, Eq)]
pub struct Message {
    pub id: (u8, u8),
    pub header: Header,
    pub rcode: ResponseCode,
    pub question: Question,
    pub records: Vec<ResourceRecord>,
}

/// A message as a mathematical value.
pub struct MessageView {
    pub id: (u8, u8),
    pub header: Header,
    pub rcode: ResponseCode,
    pub question: QuestionView,
    pub records: Seq<RecordView>,
}

impl MessageView {
    /// The number of records that the header announces.
    pub open spec fn record_count(&self) -> nat {
        (self.header.ancount + self.header.nscount + self.header.arcount) as nat
    }

    /// The response code is the one that the flag word names, there are as
    /// many records as the header announces, and the question's name and every
    /// record are well formed.
    pub open spec fn wf(&self) -> bool {
        &&& ResponseCode::of_code(Flags::of_word(self.header.flags).rcode as u16) == Ok::<
            ResponseCode,
            DnsError,
        >(self.rcode)
        &&& labels_ok(self.question.name)
        &&& self.records.len() == self.record_count()
        &&& forall|i: int| 0 <= i < self.records.len() ==> (#[trigger] self.records[i]).wf()
    }
}

/// The records of a vector as mathematical values.
pub open spec fn records_view(records: Seq<ResourceRecord>) -> Seq<RecordView> {
    Seq::new(records.len(), |i: int| records[i]@)
}

impl View for Message {
    type V = MessageView;

    open spec fn view(&self) -> MessageView {
        MessageView {
            id: self.id,
            header: self.header,
            rcode: self.rcode,
            question: self.question@,
            records: records_view(self.records@),
        }
    }
}

/// The message of a result as a mathematical value, where there is one.
pub open spec fn message_result(r: Result<Message, DnsError>) -> Result<MessageView, DnsError> {
    match r {
        Ok(m) => Ok(m@),
        Err(e) => Err(e),
    }
}

/// The bytes of a query: the transaction id, the flag word of a standard query
/// that asks for recursion, one question and no records, then the name, the
/// record type and the class of the Internet.
pub open spec fn query_bytes(name: Seq<u8>, qtype: u16, id: (u8, u8)) -> Seq<u8> {
    seq![id.0, id.1, 0x01u8, 0x00u8, 0x00u8, 0x01u8, 0x00u8, 0x00u8, 0x00u8, 0x00u8, 0x00u8, 0x00u8]
        + name + seq![high_byte(qtype), low_byte(qtype), 0x00u8, 0x01u8]
}

/// What encoding a query gives: its bytes, or the error of the name.
pub open spec fn encode_query_spec(hostname: Seq<u8>, record_type: RecordType, id: (u8, u8))
    -> Result<Seq<u8>, DnsError> {
    match encode_name_spec(hostname) {
        Ok(name) => Ok(query_bytes(name, record_type.spec_code(), id)),
        Err(e) => Err(e),
    }
}

/// What reading a header at `pos` gives: the flag word and the four counts.
pub open spec fn parse_header(bytes: Seq<u8>, pos: int) -> Result<(Header, int), DnsError> {
    if 0 <= pos && pos + 10 <= bytes.len() {
        Ok(
            (
                Header {
                    flags: parse_u16(bytes, pos)->Ok_0.0,
                    qdcount: parse_u16(bytes, pos + 2)->Ok_0.0,
                    ancount: parse_u16(bytes, pos + 4)->Ok_0.0,
                    nscount: parse_u16(bytes, pos + 6)->Ok_0.0,
                    arcount: parse_u16(bytes, pos + 8)->Ok_0.0,
                },
                pos + 10,
            ),
        )
    } else {
        Err(DnsError::UnexpectedEndOfInput)
    }
}

/// What reading a question at `pos` gives: the name, then the record type,
/// which must be a known one, then the class.
pub open spec fn parse_question(bytes: Seq<u8>, pos: int) -> Result<(QuestionView, int), DnsError> {
    match parse_name(bytes, pos) {
        Err(e) => Err(e),
        Ok((name, at_type)) => match parse_u16(bytes, at_type) {
            Err(e) => Err(e),
            Ok((t, at_class)) => match RecordType::of_code(t) {
                Err(e) => Err(e),
                Ok(qtype) => match parse_u16(bytes, at_class) {
                    Err(e) => Err(e),
                    Ok((qclass, end)) => Ok((QuestionView { name, qtype, qclass }, end)),
                },
            },
        },
    }
}

/// What reading a resource record at `pos` gives: the name, the record type,
/// which must be a known one, the class, the time to live, the length of the
/// data, and that many bytes of data.
pub open spec fn parse_record(bytes: Seq<u8>, pos: int) -> Result<(RecordView, int), DnsError> {
    match parse_name(bytes, pos) {
        Err(e) => Err(e),
        Ok((name, at_type)) => match parse_u16(bytes, at_type) {
            Err(e) => Err(e),
            Ok((t, at_class)) => match RecordType::of_code(t) {
                Err(e) => Err(e),
                Ok(rtype) => match parse_u16(bytes, at_class) {
                    Err(e) => Err(e),
                    Ok((class, at_ttl)) => match parse_u32(bytes, at_ttl) {
                        Err(e) => Err(e),
                        Ok((ttl, at_length)) => match parse_u16(bytes, at_length) {
                            Err(e) => Err(e),
                            Ok((rdlength, at_data)) => if at_data + rdlength <= bytes.len() {
                                Ok(
                                    (
                                        RecordView {
                                            name,
                                            rtype,
                                            class,
                                            ttl,
                                            rdlength,
                                            rdata: bytes.subrange(at_data, at_data + rdlength),
                                        },
                                        at_data + rdlength,
                                    ),
                                )
                            } else {
                                Err(DnsError::UnexpectedEndOfInput)
                            },
                        },
                    },
                },
            },
        },
    }
}

/// What reading `count` resource records one after the other gives, the first
/// of them at `pos`. The first error ends the reading.
pub open spec fn parse_records(bytes: Seq<u8>, pos: int, count: nat) -> Result<
    (Seq<RecordView>, int),
    DnsError,
>
    decreases count,
{
    if count == 0 {
        Ok((Seq::empty(), pos))
    } else {
        match parse_record(bytes, pos) {
            Err(e) => Err(e),
            Ok((record, next)) => match parse_records(bytes, next, (count - 1) as nat) {
                Err(e) => Err(e),
                Ok((rest, end)) => Ok((seq![record] + rest, end)),
            },
        }
    }
}

/// What decoding a message gives. The first two bytes must be the expected
/// transaction id. Then come the header, whose response code must be a known
/// one, one question whatever the header's question count says, and as many
/// resource records as the header's other three counts add up to. Bytes behind
/// the last record are not looked at.
pub open spec fn parse_message(bytes: Seq<u8>, id: (u8, u8)) -> Result<MessageView, DnsError> {
    if bytes.len() < 2 {
        Err(DnsError::UnexpectedEndOfInput)
    } else if bytes[0] != id.0 || bytes[1] != id.1 {
        Err(DnsError::TransactionIdMismatch { expected: id, actual: (bytes[0], bytes[1]) })
    } else {
        match parse_header(bytes, 2) {
            Err(e) => Err(e),
            Ok((header, at_question)) => match ResponseCode::of_code(
                Flags::of_word(header.flags).rcode as u16,
            ) {
                Err(e) => Err(e),
                Ok(rcode) => match parse_question(bytes, at_question) {
                    Err(e) => Err(e),
                    Ok((question, at_records)) => match parse_records(
                        bytes,
                        at_records,
                        (header.ancount + header.nscount + header.arcount) as nat,
                    ) {
                        Err(e) => Err(e),
                        Ok((records, end)) => Ok(
                            MessageView { id, header, rcode, question, records },
                        ),
                    },
                },
            },
        }
    }
}

/// Encodes a query for the records of type `record_type` of `hostname`, under
/// the transaction id given.
pub fn encode_query(hostname: &str, record_type: RecordType, transaction_id: (u8, u8)) -> (r:
    Result<Vec<u8>, DnsError>)
    ensures
        bytes_result(r) == encode_query_spec(hostname.spec_bytes(), record_type, transaction_id),
        r is Ok ==> r->Ok_0@.len() == 12 + encode_name_spec(hostname.spec_bytes())->Ok_0.len() + 4,
{
    let mut name: Vec<u8> = match encode_name(hostname.as_bytes()) {
        Ok(name) => name,
        Err(e) => {
            return Err(e);
        },
    };
    let flags: (u8, u8) = split_u16(Flags::query().encode());
    let qtype: (u8, u8) = split_u16(record_type.code());
    let qclass: (u8, u8) = split_u16(CLASS_IN);
    let mut query: Vec<u8> = vec![
        transaction_id.0,
        transaction_id.1,
        flags.0,
        flags.1,
        0x00,
        0x01,
        0x00,
        0x00,
        0x00,
        0x00,
        0x00,
        0x00,
    ];
    let ghost wire = name@;
    query.append(&mut name);
    query.push(qtype.0);
    query.push(qtype.1);
    query.push(qclass.0);
    query.push(qclass.1);
    assert(query@ =~= query_bytes(wire, record_type.spec_code(), transaction_id));
    Ok(query)
}

/// Encodes a query for the address records of `dns_name`, under the
/// transaction id given.
pub fn a_record_query(dns_name: &str, transaction_id: (u8, u8)) -> (r: Result<Vec<u8>, DnsError>)
    ensures
        bytes_result(r) == encode_query_spec(dns_name.spec_bytes(), RecordType::A, transaction_id),
        r is Ok ==> r->Ok_0@.len() == 12 + encode_name_spec(dns_name.spec_bytes())->Ok_0.len() + 4,
{
    encode_query(dns_name, RecordType::A, transaction_id)
}

/// Reads the flag word and the four counts at the cursor.
pub fn decode_header(cur: &mut Cursor) -> (r: Result<Header, DnsError>)
    ensures
        final(cur).follows(*old(cur)),
        match parse_header(old(cur).bytes@, old(cur).pos as int) {
            Ok((header, end)) => r == Ok::<Header, DnsError>(header) && final(cur).pos == end,
            Err(e) => r == Err::<Header, DnsError>(e),
        },
{
    let flags: u16 = match cur.read_u16() {
        Ok(v) => v,
        Err(e) => {
            return Err(e);
        },
    };
    let qdcount: u16 = match cur.read_u16() {
        Ok(v) => v,
        Err(e) => {
            return Err(e);
        },
    };
    let ancount: u16 = match cur.read_u16() {
        Ok(v) => v,
        Err(e) => {
            return Err(e);
        },
    };
    let nscount: u16 = match cur.read_u16() {
        Ok(v) => v,
        Err(e) => {
            return Err(e);
        },
    };
    let arcount: u16 = match cur.read_u16() {
        Ok(v) => v,
        Err(e) => {
            return Err(e);
        },
    };
    Ok(Header { flags, qdcount, ancount, nscount, arcount })
}

/// Reads a question at the cursor: a name, a record type and a class.
pub fn decode_question(cur: &mut Cursor) -> (r: Result<Question, DnsError>)
    ensures
        final(cur).follows(*old(cur)),
        match parse_question(old(cur).bytes@, old(cur).pos as int) {
            Ok((question, end)) => r is Ok && r->Ok_0@ == question && r->Ok_0.name.wf()
                && final(cur).pos == end,
            Err(e) => r is Err && r->Err_0 == e,
        },
{
    let name: DomainName = match decode_name(cur) {
        Ok(name) => name,
        Err(e) => {
            return Err(e);
        },
    };
    let t: u16 = match cur.read_u16() {
        Ok(v) => v,
        Err(e) => {
            return Err(e);
        },
    };
    let qtype: RecordType = match RecordType::try_from(t) {
        Ok(qtype) => qtype,
        Err(e) => {
            return Err(e);
        },
    };
    let qclass: u16 = match cur.read_u16() {
        Ok(v) => v,
        Err(e) => {
            return Err(e);
        },
    };
    Ok(Question { name, qtype, qclass })
}

/// Reads one resource record at the cursor. Where the buffer holds fewer
/// bytes of data than the record's length field says, nothing is returned but
/// the error.
pub fn decode_record(cur: &mut Cursor) -> (r: Result<ResourceRecord, DnsError>)
    ensures
        final(cur).follows(*old(cur)),
        match parse_record(old(cur).bytes@, old(cur).pos as int) {
            Ok((record, end)) => r is Ok && r->Ok_0@ == record && r->Ok_0@.wf()
                && final(cur).pos == end,
            Err(e) => r is Err && r->Err_0 == e,
        },
{
    proof {
        if parse_record(cur.bytes@, cur.pos as int) is Ok {
            lemma_parse_record_ok(cur.bytes@, cur.pos as int);
        }
    }
    let name: DomainName = match decode_name(cur) {
        Ok(name) => name,
        Err(e) => {
            return Err(e);
        },
    };
    let t: u16 = match cur.read_u16() {
        Ok(v) => v,
        Err(e) => {
            return Err(e);
        },
    };
    let rtype: RecordType = match RecordType::try_from(t) {
        Ok(rtype) => rtype,
        Err(e) => {
            return Err(e);
        },
    };
    let class: u16 = match cur.read_u16() {
        Ok(v) => v,
        Err(e) => {
            return Err(e);
        },
    };
    let ttl: u32 = match cur.read_u32() {
        Ok(v) => v,
        Err(e) => {
            return Err(e);
        },
    };
    let rdlength: u16 = match cur.read_u16() {
        Ok(v) => v,
        Err(e) => {
            return Err(e);
        },
    };
    let rdata: Vec<u8> = match cur.take(rdlength as usize) {
        Some(data) => slice_to_vec(data),
        None => {
            return Err(DnsError::UnexpectedEndOfInput);
        },
    };
    Ok(ResourceRecord { name, rtype, class, ttl, rdlength, rdata })
}

/// With `done` in front of the records of a result.
spec fn prepend_records(done: Seq<RecordView>, r: Result<(Seq<RecordView>, int), DnsError>)
    -> Result<(Seq<RecordView>, int), DnsError> {
    match r {
        Ok((rest, end)) => Ok((done + rest, end)),
        Err(e) => Err(e),
    }
}

/// Reads `count` resource records one after the other at the cursor. The
/// first error ends the reading, and no record is returned then.
pub fn decode_records(cur: &mut Cursor, count: u32) -> (r: Result<Vec<ResourceRecord>, DnsError>)
    ensures
        final(cur).follows(*old(cur)),
        match parse_records(old(cur).bytes@, old(cur).pos as int, count as nat) {
            Ok((records, end)) => r is Ok && records_view(r->Ok_0@) == records && r->Ok_0@.len()
                == count && final(cur).pos == end,
            Err(e) => r is Err && r->Err_0 == e,
        },
{
    proof {
        if parse_records(cur.bytes@, cur.pos as int, count as nat) is Ok {
            lemma_parse_records_ok(cur.bytes@, cur.pos as int, count as nat);
        }
    }
    let mut records: Vec<ResourceRecord> = Vec::new();
    let mut k: u32 = 0;
    let ghost bytes = cur.bytes@;
    let ghost start = cur.pos as int;
    let ghost mut done: Seq<RecordView> = Seq::empty();
    while k < count
        invariant
            k <= count,
            cur.follows(*old(cur)),
            bytes == cur.bytes@,
            start == old(cur).pos,
            done == records_view(records@),
            parse_records(bytes, start, count as nat) == prepend_records(
                done,
                parse_records(bytes, cur.pos as int, (count - k) as nat),
            ),
        decreases count - k,
    {
        match decode_record(cur) {
            Ok(record) => {
                proof {
                    let rest = parse_records(bytes, cur.pos as int, (count - k - 1) as nat);
                    match rest {
                        Ok((more, end)) => {
                            assert(done.push(record@) + more =~= done + (seq![record@] + more));
                        },
                        Err(e) => {},
                    }
                    done = done.push(record@);
                }
                records.push(record);
            },
            Err(e) => {
                return Err(e);
            },
        }
        k = k + 1;
    }
    Ok(records)
}

/// Decodes a response. Its first two bytes must be `msg_id`; the first
/// violation of the format ends the decoding with its error, and no part of
/// the message is returned then.
pub fn process_server_response(response: Vec<u8>, msg_id: (u8, u8)) -> (r: Result<
    Message,
    DnsError,
>)
    ensures
        message_result(r) == parse_message(response@, msg_id),
        r is Ok ==> r->Ok_0@.wf() && r->Ok_0.id == msg_id,
        response@.len() >= 2 && (response@[0], response@[1]) != msg_id ==> r is Err && r->Err_0
            == (DnsError::TransactionIdMismatch {
            expected: msg_id,
            actual: (response@[0], response@[1]),
        }),
{
    let mut cursor: Cursor = Cursor::new(response.as_slice());
    let cur: &mut Cursor = &mut cursor;
    let fst: u8 = match cur.next() {
        Some(b) => *b,
        None => {
            return Err(DnsError::UnexpectedEndOfInput);
        },
    };
    let snd: u8 = match cur.next() {
        Some(b) => *b,
        None => {
            return Err(DnsError::UnexpectedEndOfInput);
        },
    };
    if fst != msg_id.0 || snd != msg_id.1 {
        return Err(DnsError::TransactionIdMismatch { expected: msg_id, actual: (fst, snd) });
    }
    let header: Header = match decode_header(cur) {
        Ok(header) => header,
        Err(e) => {
            return Err(e);
        },
    };
    let rcode: ResponseCode = match header.response_code() {
        Ok(rcode) => rcode,
        Err(e) => {
            return Err(e);
        },
    };
    let question: Question = match decode_question(cur) {
        Ok(question) => question,
        Err(e) => {
            return Err(e);
        },
    };
    let count: u32 = header.ancount as u32 + header.nscount as u32 + header.arcount as u32;
    let records: Vec<ResourceRecord> = match decode_records(cur, count) {
        Ok(records) => records,
        Err(e) => {
            return Err(e);
        },
    };
    proof {
        lemma_parse_message_ok(response@, msg_id);
    }
    Ok(Message { id: msg_id, header, rcode, question, records })
}

} // verus!
