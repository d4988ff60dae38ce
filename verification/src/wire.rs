use vstd::prelude::*;
use crate::error::DnsError;

verus! {

/// The 16-bit number that is sent as `hi` followed by `lo`.
pub open spec fn be16(hi: u8, lo: u8) -> u16 {
    (hi as int * 0x100 + lo as int) as u16
}

/// The 32-bit number that is sent as `b0`, `b1`, `b2`, `b3` in that order.
pub open spec fn be32(b0: u8, b1: u8, b2: u8, b3: u8) -> u32 {
    (b0 as int * 0x100_0000 + b1 as int * 0x1_0000 + b2 as int * 0x100 + b3 as int) as u32
}

/// The byte of `v` that is sent first.
pub open spec fn high_byte(v: u16) -> u8 {
    (v as int / 0x100) as u8
}

/// The byte of `v` that is sent second.
pub open spec fn low_byte(v: u16) -> u8 {
    (v as int % 0x100) as u8
}

/// What reading a 16-bit number at `pos` gives: the number and the position
/// behind it, or the end of the buffer where fewer than two bytes are left.
pub open spec fn parse_u16(bytes: Seq<u8>, pos: int) -> Result<(u16, int), DnsError> {
    if 0 <= pos && pos + 2 <= bytes.len() {
        Ok((be16(bytes[pos], bytes[pos + 1]), pos + 2))
    } else {
        Err(DnsError::UnexpectedEndOfInput)
    }
}

/// What reading a 32-bit number at `pos` gives: the number and the position
/// behind it, or the end of the buffer where fewer than four bytes are left.
pub open spec fn parse_u32(bytes: Seq<u8>, pos: int) -> Result<(u32, int), DnsError> {
    if 0 <= pos && pos + 4 <= bytes.len() {
        Ok((be32(bytes[pos], bytes[pos + 1], bytes[pos + 2], bytes[pos + 3]), pos + 4))
    } else {
        Err(DnsError::UnexpectedEndOfInput)
    }
}

/// Splitting a 16-bit number into its two bytes and joining them gives the
/// number back.
pub proof fn lemma_be16_of_bytes(v: u16)
    ensures
        be16(high_byte(v), low_byte(v)) == v,
{
}

/// Joins two bytes read from a buffer into a 16-bit number, high byte first.
/// A missing byte means that the buffer ended inside the field.
pub fn construct_u16_from_u8(fst: Option<&u8>, snd: Option<&u8>) -> (r: Result<u16, DnsError>)
    ensures
        r == match (fst, snd) {
            (Some(hi), Some(lo)) => Ok::<u16, DnsError>(be16(*hi, *lo)),
            _ => Err(DnsError::UnexpectedEndOfInput),
        },
{
    match (fst, snd) {
        (Some(hi), Some(lo)) => {
            let h: u16 = *hi as u16;
            let l: u16 = *lo as u16;
            assert(h << 8 == h * 0x100) by (bit_vector)
                requires
                    h < 0x100,
            ;
            Ok((h << 8) + l)
        },
        _ => Err(DnsError::UnexpectedEndOfInput),
    }
}

/// Joins four bytes read from a buffer into a 32-bit number, highest byte
/// first. A missing byte means that the buffer ended inside the field.
pub fn construct_u32_from_u8(
    fst: Option<&u8>,
    snd: Option<&u8>,
    trd: Option<&u8>,
    frt: Option<&u8>,
) -> (r: Result<u32, DnsError>)
    ensures
        r == match (fst, snd, trd, frt) {
            (Some(b0), Some(b1), Some(b2), Some(b3)) => Ok::<u32, DnsError>(
                be32(*b0, *b1, *b2, *b3),
            ),
            _ => Err(DnsError::UnexpectedEndOfInput),
        },
{
    match (fst, snd, trd, frt) {
        (Some(b0), Some(b1), Some(b2), Some(b3)) => {
            let a: u32 = *b0 as u32;
            let b: u32 = *b1 as u32;
            let c: u32 = *b2 as u32;
            let d: u32 = *b3 as u32;
            assert(a << 24 == a * 0x100_0000 && b << 16 == b * 0x1_0000 && c << 8 == c * 0x100)
                by (bit_vector)
                requires
                    a < 0x100,
                    b < 0x100,
                    c < 0x100,
            ;
            Ok((a << 24) + (b << 16) + (c << 8) + d)
        },
        _ => Err(DnsError::UnexpectedEndOfInput),
    }
}

/// The two bytes of `v` in the order in which they are sent.
pub fn split_u16(v: u16) -> (r: (u8, u8))
    ensures
        r.0 == high_byte(v),
        r.1 == low_byte(v),
        be16(r.0, r.1) == v,
{
    ((v / 0x100) as u8, (v % 0x100) as u8)
}

} // verus!
