//! A codec for DNS messages carried over UDP.
//!
//! The encoder turns a hostname, a record type and a transaction id into the
//! bytes of a query. The decoder turns the bytes of a response into its header,
//! question and resource records. Both are pure functions over byte buffers,
//! and every function states what it computes in terms of the wire format.

pub mod error;
pub mod wire;
pub mod codes;
pub mod header;
pub mod cursor;
pub mod name;
pub mod message;
pub mod laws;

pub use crate::codes::{RecordType, ResponseCode};
pub use crate::cursor::Cursor;
pub use crate::error::DnsError;
pub use crate::header::{Flags, Header};
pub use crate::message::{
    a_record_query, encode_query, process_server_response, Message, Question, ResourceRecord,
};
pub use crate::name::{decode_name, encode_name, DomainName};
pub use crate::wire::{construct_u16_from_u8, construct_u32_from_u8};
