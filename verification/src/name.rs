use vstd::prelude::*;
use vstd::slice::slice_to_vec;
use crate::cursor::Cursor;
use crate::error::DnsError;

verus! {

/// The byte that separates the labels of a hostname: a full stop.
pub const DOT: u8 = 0x2e;

/// The most bytes that a label may have.
pub const MAX_LABEL_LEN: usize = 63;

/// The most bytes that an encoded name may have, length octets and terminator
/// included.
pub const MAX_NAME_LEN: usize = 255;

/// A domain name: its labels in order, without the length octets and the
/// terminator that frame them on the wire.
#[derive(Debug, PartialEq, Eq)]
pub struct DomainName {
    pub labels: Vec<Vec<u8>>,
}

impl View for DomainName {
    type V = Seq<Seq<u8>>;

    open spec fn view(&self) -> Seq<Seq<u8>> {
        Seq::new(self.labels@.len(), |i: int| self.labels@[i]@)
    }
}

impl DomainName {
    /// Every label has between 1 and 63 bytes.
    pub open spec fn wf(&self) -> bool {
        labels_ok(self@)
    }

    /// The name as text: its labels with a full stop between each two.
    pub fn to_dotted(&self) -> (text: Vec<u8>)
        ensures
            text@ == dotted(self@),
    {
        let mut text: Vec<u8> = Vec::new();
        let mut i: usize = 0;
        while i < self.labels.len()
            invariant
                i <= self.labels@.len(),
                text@ == dotted(self@.take(i as int)),
            decreases self.labels@.len() - i,
        {
            if i > 0 {
                text.push(DOT);
            }
            let label: &Vec<u8> = &self.labels[i];
            let ghost before = text@;
            let mut k: usize = 0;
            while k < label.len()
                invariant
                    k <= label@.len(),
                    text@ == before + label@.take(k as int),
                decreases label@.len() - k,
            {
                text.push(label[k]);
                k = k + 1;
            }
            proof {
                lemma_dotted_push(self@.take(i as int), label@);
                assert(self@.take(i + 1) =~= self@.take(i as int).push(label@));
            }
            i = i + 1;
        }
        assert(self@.take(i as int) =~= self@);
        text
    }
}

/// Every label has between 1 and 63 bytes.
pub open spec fn labels_ok(labels: Seq<Seq<u8>>) -> bool {
    forall|i: int| 0 <= i < labels.len() ==> 1 <= #[trigger] labels[i].len() <= MAX_LABEL_LEN
}

/// Where the label that starts at `i` ends: at the first full stop at or after
/// `i`, or at the end of `s` where there is none.
pub open spec fn label_end(s: Seq<u8>, i: int) -> int
    decreases s.len() - i,
{
    if 0 <= i < s.len() && s[i] != DOT {
        label_end(s, i + 1)
    } else {
        i
    }
}

/// The label that starts at `i` does not end before `i`, nor after the end of
/// `s`, and holds no full stop.
pub proof fn lemma_label_end(s: Seq<u8>, i: int)
    requires
        0 <= i <= s.len(),
    ensures
        i <= label_end(s, i) <= s.len(),
        label_end(s, i) < s.len() ==> s[label_end(s, i)] == DOT,
        forall|k: int| i <= k < label_end(s, i) ==> s[k] != DOT,
    decreases s.len() - i,
{
    if i < s.len() && s[i] != DOT {
        lemma_label_end(s, i + 1);
    }
}

/// The labels of the part of `s` that starts at `i`: the stretches between
/// full stops, those of no bytes left out.
pub open spec fn labels_from(s: Seq<u8>, i: int) -> Seq<Seq<u8>>
    decreases s.len() - i,
    via labels_from_decreases
{
    if 0 <= i < s.len() {
        let j = label_end(s, i);
        let rest = if j < s.len() {
            labels_from(s, j + 1)
        } else {
            Seq::empty()
        };
        if i < j {
            seq![s.subrange(i, j)] + rest
        } else {
            rest
        }
    } else {
        Seq::empty()
    }
}

#[via_fn]
proof fn labels_from_decreases(s: Seq<u8>, i: int) {
    if 0 <= i < s.len() {
        lemma_label_end(s, i);
    }
}

/// The labels of a hostname: it is split at every full stop, and the pieces of
/// no bytes are left out.
pub open spec fn split_labels(hostname: Seq<u8>) -> Seq<Seq<u8>> {
    labels_from(hostname, 0)
}

/// The labels as they stand on the wire, each behind an octet that holds its
/// length, without the terminator.
pub open spec fn wire_labels(labels: Seq<Seq<u8>>) -> Seq<u8>
    decreases labels.len(),
{
    if labels.len() == 0 {
        Seq::empty()
    } else {
        seq![labels[0].len() as u8] + labels[0] + wire_labels(labels.drop_first())
    }
}

/// A name on the wire: its labels, then the octet 0 that ends it.
pub open spec fn wire_name(labels: Seq<Seq<u8>>) -> Seq<u8> {
    wire_labels(labels) + seq![0u8]
}

/// The labels as text, with a full stop between each two.
pub open spec fn dotted(labels: Seq<Seq<u8>>) -> Seq<u8>
    decreases labels.len(),
{
    if labels.len() == 0 {
        Seq::empty()
    } else if labels.len() == 1 {
        labels[0]
    } else {
        labels[0] + seq![DOT] + dotted(labels.drop_first())
    }
}

/// A hostname that is split into pieces of at least one byte each: no full
/// stop stands at its start, at its end or next to another.
pub open spec fn plain(hostname: Seq<u8>) -> bool {
    forall|i: int|
        0 <= i < hostname.len() && #[trigger] hostname[i] == DOT ==> 0 < i < hostname.len() - 1
            && hostname[i + 1] != DOT
}

/// What encoding a hostname gives: the wire form of its labels, unless a label
/// has more than 63 bytes or, with no such label, the wire form has more than
/// 255 bytes.
pub open spec fn encode_name_spec(hostname: Seq<u8>) -> Result<Seq<u8>, DnsError> {
    let labels = split_labels(hostname);
    if exists|i: int| 0 <= i < labels.len() && #[trigger] labels[i].len() > MAX_LABEL_LEN {
        Err(DnsError::LabelTooLong)
    } else if wire_name(labels).len() > MAX_NAME_LEN {
        Err(DnsError::NameTooLong)
    } else {
        Ok(wire_name(labels))
    }
}

/// What reading a name at `pos` gives: its labels and the position behind its
/// terminator. A length octet of 0 ends the name, one above 63 is refused, and
/// any other is followed by that many bytes of label.
pub open spec fn parse_name(bytes: Seq<u8>, pos: int) -> Result<(Seq<Seq<u8>>, int), DnsError>
    decreases bytes.len() - pos,
{
    if pos < 0 || pos >= bytes.len() {
        Err(DnsError::UnexpectedEndOfInput)
    } else if bytes[pos] == 0 {
        Ok((Seq::empty(), pos + 1))
    } else if bytes[pos] > MAX_LABEL_LEN {
        Err(DnsError::InvalidLabelLength)
    } else if pos + 1 + bytes[pos] > bytes.len() {
        Err(DnsError::UnexpectedEndOfInput)
    } else {
        let next = pos + 1 + bytes[pos];
        match parse_name(bytes, next) {
            Ok((rest, end)) => Ok((seq![bytes.subrange(pos + 1, next)] + rest, end)),
            Err(e) => Err(e),
        }
    }
}

/// The bytes of a result, where there are any.
pub open spec fn bytes_result(r: Result<Vec<u8>, DnsError>) -> Result<Seq<u8>, DnsError> {
    match r {
        Ok(v) => Ok(v@),
        Err(e) => Err(e),
    }
}

/// A name that was read has labels of 1 to 63 bytes, and ends behind where it
/// starts and within the buffer.
pub proof fn lemma_parse_name_ok(bytes: Seq<u8>, pos: int)
    requires
        parse_name(bytes, pos) is Ok,
    ensures
        labels_ok(parse_name(bytes, pos)->Ok_0.0),
        0 <= pos < parse_name(bytes, pos)->Ok_0.1 <= bytes.len(),
    decreases bytes.len() - pos,
{
    if bytes[pos] != 0 {
        lemma_parse_name_ok(bytes, pos + 1 + bytes[pos]);
    }
}

/// The labels of a hostname have at least one byte each.
pub proof fn lemma_labels_from_nonempty(s: Seq<u8>, i: int)
    requires
        0 <= i,
    ensures
        forall|k: int| 0 <= k < labels_from(s, i).len() ==> #[trigger] labels_from(s, i)[k].len() >= 1,
    decreases s.len() - i,
{
    if i < s.len() {
        lemma_label_end(s, i);
        let j = label_end(s, i);
        if j < s.len() {
            lemma_labels_from_nonempty(s, j + 1);
        }
        if i < j {
            let rest = labels_from(s, j + 1);
            let all = seq![s.subrange(i, j)] + rest;
            assert forall|k: int| 0 <= k < all.len() implies #[trigger] all[k].len() >= 1 by {
                if k > 0 {
                    assert(all[k] == rest[k - 1]);
                }
            }
        }
    }
}

/// On the wire, one more label at the end stands behind the others.
pub proof fn lemma_wire_labels_push(labels: Seq<Seq<u8>>, label: Seq<u8>)
    ensures
        wire_labels(labels.push(label)) == wire_labels(labels) + seq![label.len() as u8] + label,
    decreases labels.len(),
{
    let all = labels.push(label);
    if labels.len() == 0 {
        assert(all.drop_first() =~= Seq::<Seq<u8>>::empty());
        assert(wire_labels(Seq::<Seq<u8>>::empty()) =~= Seq::<u8>::empty());
    } else {
        lemma_wire_labels_push(labels.drop_first(), label);
        assert(all.drop_first() =~= labels.drop_first().push(label));
    }
}

/// Reading a name where its wire form stands gives its labels back, and ends
/// right behind the terminator, whatever stands before and behind the name.
pub proof fn lemma_parse_wire_name(before: Seq<u8>, labels: Seq<Seq<u8>>, after: Seq<u8>)
    requires
        labels_ok(labels),
    ensures
        parse_name(before + wire_name(labels) + after, before.len() as int) == Ok::<
            (Seq<Seq<u8>>, int),
            DnsError,
        >((labels, (before.len() + wire_name(labels).len()) as int)),
    decreases labels.len(),
{
    let bytes = before + wire_name(labels) + after;
    let pos = before.len() as int;
    if labels.len() == 0 {
        assert(labels =~= Seq::<Seq<u8>>::empty());
    } else {
        let first = labels[0];
        let rest = labels.drop_first();
        let before2 = before + seq![first.len() as u8] + first;
        lemma_parse_wire_name(before2, rest, after);
        assert(bytes =~= before2 + wire_name(rest) + after);
        assert(bytes.subrange(pos + 1, pos + 1 + first.len()) =~= first);
        assert(seq![first] + rest =~= labels);
    }
}

/// As text, one more label at the end stands behind the others and a full
/// stop.
pub proof fn lemma_dotted_push(labels: Seq<Seq<u8>>, label: Seq<u8>)
    ensures
        dotted(labels.push(label)) == if labels.len() == 0 {
            label
        } else {
            dotted(labels) + seq![DOT] + label
        },
    decreases labels.len(),
{
    let all = labels.push(label);
    if labels.len() == 1 {
        assert(all.drop_first() =~= seq![label]);
        assert(dotted(seq![label]) == label);
    } else if labels.len() > 1 {
        lemma_dotted_push(labels.drop_first(), label);
        assert(all.drop_first() =~= labels.drop_first().push(label));
    }
}

/// From the start of a label on, the text of the labels of a plain hostname
/// is the hostname.
proof fn lemma_dotted_labels_from(s: Seq<u8>, i: int)
    requires
        plain(s),
        0 <= i < s.len(),
        s[i] != DOT,
    ensures
        labels_from(s, i).len() >= 1,
        dotted(labels_from(s, i)) == s.subrange(i, s.len() as int),
    decreases s.len() - i,
{
    lemma_label_end(s, i);
    let j = label_end(s, i);
    if j < s.len() {
        lemma_dotted_labels_from(s, j + 1);
        let rest = labels_from(s, j + 1);
        assert((seq![s.subrange(i, j)] + rest).drop_first() =~= rest);
    }
}

/// The text of the labels of a plain hostname is the hostname.
pub proof fn lemma_dotted_split(hostname: Seq<u8>)
    requires
        plain(hostname),
    ensures
        dotted(split_labels(hostname)) == hostname,
{
    if hostname.len() > 0 {
        lemma_dotted_labels_from(hostname, 0);
    }
}

/// Encoding a hostname and reading the result back gives the labels of the
/// hostname, and reads the whole result. Where the hostname is plain, the
/// labels read are the hostname again as text.
pub proof fn lemma_name_round_trip(hostname: Seq<u8>)
    requires
        encode_name_spec(hostname) is Ok,
    ensures
        parse_name(encode_name_spec(hostname)->Ok_0, 0) == Ok::<(Seq<Seq<u8>>, int), DnsError>(
            (split_labels(hostname), encode_name_spec(hostname)->Ok_0.len() as int),
        ),
        plain(hostname) ==> dotted(parse_name(encode_name_spec(hostname)->Ok_0, 0)->Ok_0.0)
            == hostname,
{
    if plain(hostname) {
        lemma_dotted_split(hostname);
    }
    let labels = split_labels(hostname);
    lemma_labels_from_nonempty(hostname, 0);
    lemma_parse_wire_name(Seq::empty(), labels, Seq::empty());
}

/// With `done` in front of the labels of a result.
spec fn prepend(done: Seq<Seq<u8>>, r: Result<(Seq<Seq<u8>>, int), DnsError>) -> Result<
    (Seq<Seq<u8>>, int),
    DnsError,
> {
    match r {
        Ok((rest, end)) => Ok((done + rest, end)),
        Err(e) => Err(e),
    }
}

/// Encodes a hostname for the wire: each label behind an octet that holds its
/// length, then the octet 0. The hostname is split at full stops, and pieces of
/// no bytes are left out. Any byte may stand in a label.
pub fn encode_name(hostname: &[u8]) -> (r: Result<Vec<u8>, DnsError>)
    ensures
        bytes_result(r) == encode_name_spec(hostname@),
        r is Ok ==> 1 <= r->Ok_0@.len() <= MAX_NAME_LEN,
{
    let n: usize = hostname.len();
    let mut out: Vec<u8> = Vec::new();
    let mut i: usize = 0;
    let ghost mut done: Seq<Seq<u8>> = Seq::empty();
    while i < n
        invariant
            i <= n == hostname@.len(),
            split_labels(hostname@) == done + labels_from(hostname@, i as int),
            labels_ok(done),
            out@ == wire_labels(done),
        decreases n - i,
    {
        let mut j: usize = i;
        while j < n && hostname[j] != DOT
            invariant
                i <= j <= n == hostname@.len(),
                label_end(hostname@, j as int) == label_end(hostname@, i as int),
            decreases n - j,
        {
            j = j + 1;
        }
        let ghost label = hostname@.subrange(i as int, j as int);
        if j - i > MAX_LABEL_LEN {
            proof {
                let all = split_labels(hostname@);
                assert(all[done.len() as int] == label);
            }
            return Err(DnsError::LabelTooLong);
        }
        if j > i {
            out.push((j - i) as u8);
            let mut k: usize = i;
            while k < j
                invariant
                    i <= k <= j <= hostname@.len(),
                    out@ == wire_labels(done) + seq![(j - i) as u8] + hostname@.subrange(
                        i as int,
                        k as int,
                    ),
                decreases j - k,
            {
                out.push(hostname[k]);
                k = k + 1;
            }
            proof {
                lemma_wire_labels_push(done, label);
                done = done.push(label);
            }
        }
        i = if j < n {
            j + 1
        } else {
            j
        };
    }
    out.push(0);
    assert(out@ =~= wire_name(done));
    if out.len() > MAX_NAME_LEN {
        Err(DnsError::NameTooLong)
    } else {
        Ok(out)
    }
}

/// Reads a name at the cursor and moves the cursor behind its terminator.
/// Compression pointers are not followed: a length octet above 63 is refused.
pub fn decode_name(cur: &mut Cursor) -> (r: Result<DomainName, DnsError>)
    ensures
        final(cur).follows(*old(cur)),
        match parse_name(old(cur).bytes@, old(cur).pos as int) {
            Ok((labels, end)) => r is Ok && r->Ok_0@ == labels && r->Ok_0.wf() && final(cur).pos
                == end,
            Err(e) => r is Err && r->Err_0 == e,
        },
{
    let mut labels: Vec<Vec<u8>> = Vec::new();
    let ghost start = cur.pos as int;
    let ghost bytes = cur.bytes@;
    let ghost mut done: Seq<Seq<u8>> = Seq::empty();
    loop
        invariant
            cur.follows(*old(cur)),
            bytes == cur.bytes@,
            start == old(cur).pos,
            done == Seq::new(labels@.len(), |i: int| labels@[i]@),
            parse_name(bytes, start) == prepend(done, parse_name(bytes, cur.pos as int)),
        decreases bytes.len() - cur.pos,
    {
        let n: u8 = match cur.next() {
            Some(b) => *b,
            None => {
                return Err(DnsError::UnexpectedEndOfInput);
            },
        };
        if n == 0 {
            let name = DomainName { labels };
            proof {
                lemma_parse_name_ok(bytes, start);
            }
            return Ok(name);
        }
        if n as usize > MAX_LABEL_LEN {
            return Err(DnsError::InvalidLabelLength);
        }
        let ghost at = cur.pos as int;
        match cur.take(n as usize) {
            Some(s) => {
                labels.push(slice_to_vec(s));
                proof {
                    let label = bytes.subrange(at, at + n);
                    let rest = parse_name(bytes, at + n);
                    match rest {
                        Ok((more, end)) => {
                            assert(done.push(label) + more =~= done + (seq![label] + more));
                        },
                        Err(e) => {},
                    }
                    done = done.push(label);
                }
            },
            None => {
                return Err(DnsError::UnexpectedEndOfInput);
            },
        }
    }
}

} // verus!
