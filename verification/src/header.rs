use vstd::prelude::*;
use vstd::arithmetic::power2::{pow2, lemma2_to64};
use bitfield::BitRange;
use crate::codes::ResponseCode;
use crate::error::DnsError;

verus! {

/// The number held by bits `msb` down to `lsb` of `word`, where bit 0 is the
/// least significant one.
pub open spec fn bits(word: u16, msb: nat, lsb: nat) -> nat {
    (word as nat / pow2(lsb)) % pow2((msb + 1 - lsb) as nat)
}

/// Calls `bitfield::BitRange::<u16>::bit_range` on a `u16`. The crate shifts
/// the bits above `msb` out to the left and then the bits below `lsb` out to the
/// right, which leaves the number held by bits `msb` down to `lsb`. With
/// `msb` below `lsb`, or `msb` above 15, the crate's debug assertion or a shift
/// amount would fail, so such positions are not accepted.
#[verifier::external_body]
fn bit_range(word: u16, msb: usize, lsb: usize) -> (field: u16)
    requires
        lsb <= msb < 16,
    ensures
        field == bits(word, msb as nat, lsb as nat),
{
    BitRange::<u16>::bit_range(&word, msb, lsb)
}

/// The fixed part of a message that follows the transaction id: the flag word
/// and the number of entries in each of the four sections.
#[derive(Clone, Copy, Debug, PartialEq, Eq)]
pub struct Header {
    pub flags: u16,
    pub qdcount: u16,
    pub ancount: u16,
    pub nscount: u16,
    pub arcount: u16,
}

/// The fields of a flag word, each under its name.
#[derive(Clone, Copy, Debug, PartialEq, Eq)]
pub struct Flags {
    /// Bit 15: the message is a response.
    pub qr: bool,
    /// Bits 14 to 11: the kind of query.
    pub opcode: u8,
    /// Bit 10: the responder is an authority for the name.
    pub aa: bool,
    /// Bit 9: the message was truncated.
    pub tc: bool,
    /// Bit 8: recursion is desired.
    pub rd: bool,
    /// Bit 7: recursion is available.
    pub ra: bool,
    /// Bits 6 to 4: reserved.
    pub z: u8,
    /// Bits 3 to 0: the response code, as the number read.
    pub rcode: u8,
}

impl Flags {
    /// Every field fits the bits that the flag word has for it.
    pub open spec fn valid(&self) -> bool {
        self.opcode < 16 && self.z < 8 && self.rcode < 16
    }

    /// Whether every field fits the bits that the flag word has for it.
    pub fn is_valid(&self) -> (ok: bool)
        ensures
            ok == self.valid(),
    {
        self.opcode < 16 && self.z < 8 && self.rcode < 16
    }

    /// The flag word with every field at its place.
    pub open spec fn word(&self) -> nat {
        ((if self.qr { 0x8000int } else { 0int }) + self.opcode * 0x800
            + (if self.aa { 0x400int } else { 0int }) + (if self.tc { 0x200int } else { 0int })
            + (if self.rd { 0x100int } else { 0int }) + (if self.ra { 0x80int } else { 0int })
            + self.z * 0x10 + self.rcode) as nat
    }

    /// The fields that `word` holds.
    pub open spec fn of_word(word: u16) -> Flags {
        Flags {
            qr: bits(word, 15, 15) == 1,
            opcode: bits(word, 14, 11) as u8,
            aa: bits(word, 10, 10) == 1,
            tc: bits(word, 9, 9) == 1,
            rd: bits(word, 8, 8) == 1,
            ra: bits(word, 7, 7) == 1,
            z: bits(word, 6, 4) as u8,
            rcode: bits(word, 3, 0) as u8,
        }
    }

    /// The flags of a standard query that asks for recursion.
    pub open spec fn spec_query() -> Flags {
        Flags {
            qr: false,
            opcode: 0,
            aa: false,
            tc: false,
            rd: true,
            ra: false,
            z: 0,
            rcode: 0,
        }
    }

    /// The flags of a standard query that asks for recursion.
    #[verifier::when_used_as_spec(spec_query)]
    pub fn query() -> (f: Flags)
        ensures
            f == Flags::spec_query(),
            f.valid(),
            f.word() == 0x0100,
    {
        Flags {
            qr: false,
            opcode: 0,
            aa: false,
            tc: false,
            rd: true,
            ra: false,
            z: 0,
            rcode: 0,
        }
    }

    /// Packs the fields into a flag word. Reading the word's fields gives
    /// these fields back.
    pub fn encode(&self) -> (w: u16)
        requires
            self.valid(),
        ensures
            w == self.word(),
            Flags::of_word(w) == *self,
    {
        let mut w: u16 = self.opcode as u16 * 0x800 + self.z as u16 * 0x10 + self.rcode as u16;
        if self.qr {
            w = w + 0x8000;
        }
        if self.aa {
            w = w + 0x400;
        }
        if self.tc {
            w = w + 0x200;
        }
        if self.rd {
            w = w + 0x100;
        }
        if self.ra {
            w = w + 0x80;
        }
        proof {
            lemma_fields_of_word(w);
        }
        w
    }
}

/// The fields of a flag word fit their bits, and put back at their places
/// they make up the word. No other fields that fit make up the same word.
pub proof fn lemma_fields_of_word(word: u16)
    ensures
        Flags::of_word(word).valid(),
        Flags::of_word(word).word() == word,
        forall|f: Flags| f.valid() && f.word() == word ==> f == Flags::of_word(word),
{
    lemma2_to64();
    assert(word == (word / 0x8000 % 2) * 0x8000 + (word / 0x800 % 16) * 0x800 + (word / 0x400 % 2)
        * 0x400 + (word / 0x200 % 2) * 0x200 + (word / 0x100 % 2) * 0x100 + (word / 0x80 % 2)
        * 0x80 + (word / 0x10 % 8) * 0x10 + word % 16) by (bit_vector);
    assert forall|f: Flags| f.valid() && f.word() == word implies f == Flags::of_word(word) by {
        lemma_digits(
            word,
            if f.qr { 1 } else { 0 },
            f.opcode as u16,
            if f.aa { 1 } else { 0 },
            if f.tc { 1 } else { 0 },
            if f.rd { 1 } else { 0 },
            if f.ra { 1 } else { 0 },
            f.z as u16,
            f.rcode as u16,
        );
    }
}

/// A number written with the flag word's eight fields has those fields as
/// its digits.
proof fn lemma_digits(w: u16, q: u16, o: u16, a: u16, t: u16, d: u16, r: u16, z: u16, c: u16)
    by (bit_vector)
    requires
        q < 2,
        o < 16,
        a < 2,
        t < 2,
        d < 2,
        r < 2,
        z < 8,
        c < 16,
        w == q * 0x8000 + o * 0x800 + a * 0x400 + t * 0x200 + d * 0x100 + r * 0x80 + z * 0x10 + c,
    ensures
        w / 0x8000 % 2 == q,
        w / 0x800 % 16 == o,
        w / 0x400 % 2 == a,
        w / 0x200 % 2 == t,
        w / 0x100 % 2 == d,
        w / 0x80 % 2 == r,
        w / 0x10 % 8 == z,
        w % 16 == c,
{
}

impl Header {
    /// Bit 15: whether the message is a response.
    pub fn qr(&self) -> (r: bool)
        ensures
            r == Flags::of_word(self.flags).qr,
    {
        bit_range(self.flags, 15, 15) == 1
    }

    /// Bits 14 to 11: the kind of query.
    pub fn opcode(&self) -> (r: u8)
        ensures
            r == Flags::of_word(self.flags).opcode,
            r < 16,
    {
        proof {
            lemma2_to64();
        }
        bit_range(self.flags, 14, 11) as u8
    }

    /// Bit 10: whether the responder is an authority for the name.
    pub fn aa(&self) -> (r: bool)
        ensures
            r == Flags::of_word(self.flags).aa,
    {
        bit_range(self.flags, 10, 10) == 1
    }

    /// Bit 9: whether the message was truncated.
    pub fn tc(&self) -> (r: bool)
        ensures
            r == Flags::of_word(self.flags).tc,
    {
        bit_range(self.flags, 9, 9) == 1
    }

    /// Bit 8: whether recursion is desired.
    pub fn rd(&self) -> (r: bool)
        ensures
            r == Flags::of_word(self.flags).rd,
    {
        bit_range(self.flags, 8, 8) == 1
    }

    /// Bit 7: whether recursion is available.
    pub fn ra(&self) -> (r: bool)
        ensures
            r == Flags::of_word(self.flags).ra,
    {
        bit_range(self.flags, 7, 7) == 1
    }

    /// Bits 6 to 4: reserved.
    pub fn z(&self) -> (r: u8)
        ensures
            r == Flags::of_word(self.flags).z,
            r < 8,
    {
        proof {
            lemma2_to64();
        }
        bit_range(self.flags, 6, 4) as u8
    }

    /// Bits 3 to 0: the response code, as the number read.
    pub fn rcode(&self) -> (r: u8)
        ensures
            r == Flags::of_word(self.flags).rcode,
            r < 16,
    {
        proof {
            lemma2_to64();
        }
        bit_range(self.flags, 3, 0) as u8
    }

    /// All fields of the flag word, read in one step.
    pub fn fields(&self) -> (f: Flags)
        ensures
            f == Flags::of_word(self.flags),
            f.valid(),
            f.word() == self.flags,
    {
        proof {
            lemma_fields_of_word(self.flags);
        }
        Flags {
            qr: self.qr(),
            opcode: self.opcode(),
            aa: self.aa(),
            tc: self.tc(),
            rd: self.rd(),
            ra: self.ra(),
            z: self.z(),
            rcode: self.rcode(),
        }
    }

    /// The response code that the flag word names. A number that stands for
    /// no known code is an error that carries the number.
    pub fn response_code(&self) -> (r: Result<ResponseCode, DnsError>)
        ensures
            r == ResponseCode::of_code(Flags::of_word(self.flags).rcode as u16),
    {
        ResponseCode::try_from(self.rcode() as u16)
    }
}

} // verus!
