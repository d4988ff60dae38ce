use vstd::prelude::*;

verus! {

/// Why a name could not be encoded or a buffer could not be read as a message.
#[derive(Debug, Clone, Copy, PartialEq, Eq)]
pub enum DnsError {
    /// The buffer ended in the middle of a field.
    UnexpectedEndOfInput,
    /// A label of the hostname is longer than 63 bytes.
    LabelTooLong,
    /// The encoded name, length octets and terminator included, is longer than
    /// 255 bytes.
    NameTooLong,
    /// A length octet is above 63: its high bits are reserved, among other
    /// things for compression pointers, which are not followed.
    InvalidLabelLength,
    /// A record type that is not one of the known ones, with the value read.
    UnknownRecordType(u16),
    /// A response code that is not one of the known ones, with the value read.
    UnknownResponseCode(u16),
    /// The message starts with another transaction id than the one asked for.
    TransactionIdMismatch { expected: (u8, u8), actual: (u8, u8) },
}

} // verus!
