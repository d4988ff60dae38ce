use vstd::prelude::*;
use vstd::arithmetic::power2::lemma2_to64;
use crate::codes::{RecordType, ResponseCode};
use crate::error::DnsError;
use crate::header::{Flags, Header};
use crate::message::{
    encode_query_spec, message_result, parse_header, parse_message, parse_question, parse_record,
    parse_records, Message, MessageView, QuestionView, RecordView, CLASS_IN,
};
use crate::name::{
    lemma_labels_from_nonempty, lemma_parse_name_ok, lemma_parse_wire_name, parse_name,
    split_labels,
};
use crate::wire::{be16, high_byte, lemma_be16_of_bytes, low_byte};

verus! {

/// A record that was read is well formed, and ends behind where it starts and
/// within the buffer.
pub proof fn lemma_parse_record_ok(bytes: Seq<u8>, pos: int)
    requires
        parse_record(bytes, pos) is Ok,
    ensures
        parse_record(bytes, pos)->Ok_0.0.wf(),
        0 <= pos < parse_record(bytes, pos)->Ok_0.1 <= bytes.len(),
{
    lemma_parse_name_ok(bytes, pos);
}

/// Records that were read are as many as were asked for, and each is well
/// formed.
pub proof fn lemma_parse_records_ok(bytes: Seq<u8>, pos: int, count: nat)
    requires
        parse_records(bytes, pos, count) is Ok,
    ensures
        parse_records(bytes, pos, count)->Ok_0.0.len() == count,
        forall|i: int|
            0 <= i < count ==> (#[trigger] parse_records(bytes, pos, count)->Ok_0.0[i]).wf(),
    decreases count,
{
    if count > 0 {
        lemma_parse_record_ok(bytes, pos);
        let first = parse_record(bytes, pos)->Ok_0.0;
        let next = parse_record(bytes, pos)->Ok_0.1;
        lemma_parse_records_ok(bytes, next, (count - 1) as nat);
        let rest = parse_records(bytes, next, (count - 1) as nat)->Ok_0.0;
        let all = parse_records(bytes, pos, count)->Ok_0.0;
        assert(all =~= seq![first] + rest);
        assert forall|i: int| 0 <= i < count implies (#[trigger] all[i]).wf() by {
            if i > 0 {
                assert(all[i] == rest[i - 1]);
            }
        }
    }
}

/// A message that was decoded is well formed and carries the transaction id
/// that was expected.
pub proof fn lemma_parse_message_ok(bytes: Seq<u8>, id: (u8, u8))
    requires
        parse_message(bytes, id) is Ok,
    ensures
        parse_message(bytes, id)->Ok_0.wf(),
        parse_message(bytes, id)->Ok_0.id == id,
{
    let header = parse_header(bytes, 2)->Ok_0.0;
    let at_question = parse_header(bytes, 2)->Ok_0.1;
    lemma_parse_name_ok(bytes, at_question);
    let at_records = parse_question(bytes, at_question)->Ok_0.1;
    lemma_parse_records_ok(
        bytes,
        at_records,
        (header.ancount + header.nscount + header.arcount) as nat,
    );
}

/// Decoding is a function of the bytes and the expected transaction id: two
/// decodings of the same buffer give the same message, field by field, or the
/// same error.
pub proof fn lemma_decoding_twice(
    bytes: Seq<u8>,
    id: (u8, u8),
    first: Result<Message, DnsError>,
    second: Result<Message, DnsError>,
)
    requires
        message_result(first) == parse_message(bytes, id),
        message_result(second) == parse_message(bytes, id),
    ensures
        message_result(first) == message_result(second),
        first is Ok ==> second is Ok && first->Ok_0@ == second->Ok_0@,
        first is Err ==> second is Err && first->Err_0 == second->Err_0,
{
}

/// A buffer whose first two bytes are not the expected transaction id is
/// refused for that, whatever follows them.
pub proof fn lemma_transaction_id_first(bytes: Seq<u8>, id: (u8, u8))
    requires
        bytes.len() >= 2,
        (bytes[0], bytes[1]) != id,
    ensures
        parse_message(bytes, id) == Err::<MessageView, DnsError>(
            DnsError::TransactionIdMismatch { expected: id, actual: (bytes[0], bytes[1]) },
        ),
{
}

/// At `pos` stands a record whose name, type, class and time to live can be
/// read, and whose length field announces more data than the buffer holds
/// behind it.
pub open spec fn data_beyond_buffer(bytes: Seq<u8>, pos: int) -> bool {
    &&& parse_name(bytes, pos) is Ok
    &&& {
        let p = parse_name(bytes, pos)->Ok_0.1;
        &&& p + 10 <= bytes.len()
        &&& RecordType::of_code(be16(bytes[p], bytes[p + 1])) is Ok
        &&& p + 10 + be16(bytes[p + 8], bytes[p + 9]) > bytes.len()
    }
}

/// A record whose length field announces more data than the buffer holds is
/// not read: the result is the end of the input, and no record.
pub proof fn lemma_record_data_beyond_buffer(bytes: Seq<u8>, pos: int)
    requires
        data_beyond_buffer(bytes, pos),
    ensures
        parse_record(bytes, pos) == Err::<(RecordView, int), DnsError>(
            DnsError::UnexpectedEndOfInput,
        ),
{
    lemma_parse_name_ok(bytes, pos);
}

/// Where `k` records can be read and the next one cannot, reading more than
/// `k` records fails as reading that one does.
pub proof fn lemma_records_stop_at_error(bytes: Seq<u8>, pos: int, k: nat, count: nat)
    requires
        k < count,
        parse_records(bytes, pos, k) is Ok,
        parse_record(bytes, parse_records(bytes, pos, k)->Ok_0.1) is Err,
    ensures
        parse_records(bytes, pos, count) is Err,
        parse_records(bytes, pos, count)->Err_0 == parse_record(
            bytes,
            parse_records(bytes, pos, k)->Ok_0.1,
        )->Err_0,
    decreases k,
{
    if k > 0 {
        let next = parse_record(bytes, pos)->Ok_0.1;
        lemma_records_stop_at_error(bytes, next, (k - 1) as nat, (count - 1) as nat);
    }
}

/// A message in which the id, the header and the question can be read, the
/// header announces more than `k` records, `k` records can be read, and the
/// next one announces more data than the buffer holds, is refused with the
/// end of the input.
pub proof fn lemma_message_data_beyond_buffer(bytes: Seq<u8>, id: (u8, u8), k: nat)
    requires
        bytes.len() >= 2,
        (bytes[0], bytes[1]) == id,
        parse_header(bytes, 2) is Ok,
        ResponseCode::of_code(Flags::of_word(parse_header(bytes, 2)->Ok_0.0.flags).rcode as u16)
            is Ok,
        parse_question(bytes, 12) is Ok,
        k < parse_header(bytes, 2)->Ok_0.0.ancount + parse_header(bytes, 2)->Ok_0.0.nscount
            + parse_header(bytes, 2)->Ok_0.0.arcount,
        parse_records(bytes, parse_question(bytes, 12)->Ok_0.1, k) is Ok,
        data_beyond_buffer(
            bytes,
            parse_records(bytes, parse_question(bytes, 12)->Ok_0.1, k)->Ok_0.1,
        ),
    ensures
        parse_message(bytes, id) == Err::<MessageView, DnsError>(DnsError::UnexpectedEndOfInput),
{
    let header = parse_header(bytes, 2)->Ok_0.0;
    let at_records = parse_question(bytes, 12)->Ok_0.1;
    let count = (header.ancount + header.nscount + header.arcount) as nat;
    lemma_record_data_beyond_buffer(bytes, parse_records(bytes, at_records, k)->Ok_0.1);
    lemma_records_stop_at_error(bytes, at_records, k, count);
}

/// The message that a query for `hostname` is.
pub open spec fn query_message(hostname: Seq<u8>, record_type: RecordType, id: (u8, u8))
    -> MessageView {
    MessageView {
        id,
        header: Header { flags: 0x0100, qdcount: 1, ancount: 0, nscount: 0, arcount: 0 },
        rcode: ResponseCode::NoError,
        question: QuestionView {
            name: split_labels(hostname),
            qtype: record_type,
            qclass: CLASS_IN,
        },
        records: Seq::empty(),
    }
}

/// Decoding an encoded query under its own transaction id gives the query
/// back: the flags of a standard query that asks for recursion, one question
/// with the labels of the hostname, the record type and the class of the
/// Internet, and no records.
pub proof fn lemma_query_round_trip(hostname: Seq<u8>, record_type: RecordType, id: (u8, u8))
    requires
        encode_query_spec(hostname, record_type, id) is Ok,
    ensures
        parse_message(encode_query_spec(hostname, record_type, id)->Ok_0, id) == Ok::<
            MessageView,
            DnsError,
        >(query_message(hostname, record_type, id)),
{
    let labels = split_labels(hostname);
    let code = record_type.spec_code();
    let head = seq![
        id.0,
        id.1,
        0x01u8,
        0x00u8,
        0x00u8,
        0x01u8,
        0x00u8,
        0x00u8,
        0x00u8,
        0x00u8,
        0x00u8,
        0x00u8,
    ];
    let tail = seq![high_byte(code), low_byte(code), 0x00u8, 0x01u8];
    lemma_labels_from_nonempty(hostname, 0);
    lemma_parse_wire_name(head, labels, tail);
    lemma_be16_of_bytes(code);
    lemma2_to64();
}

} // verus!
