use vstd::prelude::*;
use vstd::slice::slice_subrange;
use crate::error::DnsError;
use crate::wire::{construct_u16_from_u8, construct_u32_from_u8, parse_u16, parse_u32};

verus! {

/// A reading position in a byte buffer. The bytes before `pos` have been read;
/// reading moves `pos` forward and never back.
pub struct Cursor<'a> {
    pub bytes: &'a [u8],
    pub pos: usize,
}

impl<'a> Cursor<'a> {
    /// The position is within the buffer or at its end.
    pub open spec fn wf(&self) -> bool {
        self.pos <= self.bytes@.len()
    }

    /// This cursor reads the buffer that `before` reads, stands where `before`
    /// stands or further on, and is within the buffer if `before` is.
    pub open spec fn follows(&self, before: Cursor<'a>) -> bool {
        &&& self.bytes == before.bytes
        &&& before.pos <= self.pos
        &&& before.wf() ==> self.wf()
    }

    /// A cursor at the start of `bytes`.
    pub fn new(bytes: &'a [u8]) -> (c: Cursor<'a>)
        ensures
            c.bytes == bytes,
            c.pos == 0,
            c.wf(),
    {
        Cursor { bytes, pos: 0 }
    }

    /// Reads one byte and moves past it. At the end of the buffer there is no
    /// byte, and the cursor stays where it is.
    pub fn next(&mut self) -> (b: Option<&'a u8>)
        ensures
            final(self).follows(*old(self)),
            match b {
                Some(byte) => old(self).pos < old(self).bytes@.len() && *byte == old(self).bytes@[old(self).pos as int]
                    && final(self).pos == old(self).pos + 1,
                None => old(self).pos >= old(self).bytes@.len() && final(self).pos == old(self).pos,
            },
    {
        let bytes: &'a [u8] = self.bytes;
        if self.pos < bytes.len() {
            let b: &'a u8 = &bytes[self.pos];
            self.pos = self.pos + 1;
            Some(b)
        } else {
            None
        }
    }

    /// Reads `n` bytes and moves past them. Where fewer than `n` bytes are
    /// left there is no result, and the cursor stays where it is.
    pub fn take(&mut self, n: usize) -> (s: Option<&'a [u8]>)
        ensures
            final(self).follows(*old(self)),
            match s {
                Some(read) => old(self).pos + n <= old(self).bytes@.len() && read@ == old(self).bytes@
                    .subrange(old(self).pos as int, old(self).pos + n) && final(self).pos == old(self).pos
                    + n,
                None => old(self).pos + n > old(self).bytes@.len() && final(self).pos == old(self).pos,
            },
    {
        let bytes: &'a [u8] = self.bytes;
        if self.pos <= bytes.len() && n <= bytes.len() - self.pos {
            let s: &'a [u8] = slice_subrange(bytes, self.pos, self.pos + n);
            self.pos = self.pos + n;
            Some(s)
        } else {
            None
        }
    }

    /// Reads a 16-bit number, high byte first, and moves past it.
    pub fn read_u16(&mut self) -> (r: Result<u16, DnsError>)
        ensures
            final(self).follows(*old(self)),
            match parse_u16(old(self).bytes@, old(self).pos as int) {
                Ok((v, end)) => r == Ok::<u16, DnsError>(v) && final(self).pos == end,
                Err(e) => r == Err::<u16, DnsError>(e),
            },
    {
        let fst: Option<&u8> = self.next();
        let snd: Option<&u8> = self.next();
        construct_u16_from_u8(fst, snd)
    }

    /// Reads a 32-bit number, highest byte first, and moves past it.
    pub fn read_u32(&mut self) -> (r: Result<u32, DnsError>)
        ensures
            final(self).follows(*old(self)),
            match parse_u32(old(self).bytes@, old(self).pos as int) {
                Ok((v, end)) => r == Ok::<u32, DnsError>(v) && final(self).pos == end,
                Err(e) => r == Err::<u32, DnsError>(e),
            },
    {
        let fst: Option<&u8> = self.next();
        let snd: Option<&u8> = self.next();
        let trd: Option<&u8> = self.next();
        let frt: Option<&u8> = self.next();
        construct_u32_from_u8(fst, snd, trd, frt)
    }
}

} // verus!
