use vstd::prelude::*;
use vstd::std_specs::convert::TryFromSpecImpl;
use crate::error::DnsError;

verus! {

/// The outcome that a responder reports in the low four bits of the flag word.
#[derive(Clone, Copy, Debug, PartialEq, Eq)]
pub enum ResponseCode {
    NoError,
    FormatError,
    ServerFailure,
    NameError,
    NotImplemented,
    Refused,
}

impl ResponseCode {
    /// The code that `v` stands for on the wire, or the error that carries `v`
    /// where it stands for none.
    pub open spec fn of_code(v: u16) -> Result<ResponseCode, DnsError> {
        if v == 0 {
            Ok(ResponseCode::NoError)
        } else if v == 1 {
            Ok(ResponseCode::FormatError)
        } else if v == 2 {
            Ok(ResponseCode::ServerFailure)
        } else if v == 3 {
            Ok(ResponseCode::NameError)
        } else if v == 4 {
            Ok(ResponseCode::NotImplemented)
        } else if v == 5 {
            Ok(ResponseCode::Refused)
        } else {
            Err(DnsError::UnknownResponseCode(v))
        }
    }

    /// The number that stands for this code on the wire.
    pub open spec fn spec_code(self) -> u16 {
        match self {
            ResponseCode::NoError => 0,
            ResponseCode::FormatError => 1,
            ResponseCode::ServerFailure => 2,
            ResponseCode::NameError => 3,
            ResponseCode::NotImplemented => 4,
            ResponseCode::Refused => 5,
        }
    }

    /// The number that stands for this code on the wire. Reading that number
    /// back gives this code.
    #[verifier::when_used_as_spec(spec_code)]
    pub fn code(self) -> (v: u16)
        ensures
            v == self.spec_code(),
            ResponseCode::of_code(v) == Ok::<ResponseCode, DnsError>(self),
    {
        match self {
            ResponseCode::NoError => 0,
            ResponseCode::FormatError => 1,
            ResponseCode::ServerFailure => 2,
            ResponseCode::NameError => 3,
            ResponseCode::NotImplemented => 4,
            ResponseCode::Refused => 5,
        }
    }
}

impl TryFrom<u16> for ResponseCode {
    type Error = DnsError;

    /// The code that `v` stands for. A number that stands for none is an error
    /// that carries the number.
    fn try_from(v: u16) -> (r: Result<ResponseCode, DnsError>)
        ensures
            r == ResponseCode::of_code(v),
            match r {
                Ok(c) => c.spec_code() == v,
                Err(e) => e == DnsError::UnknownResponseCode(v) && forall|c: ResponseCode|
                    c.spec_code() != v,
            },
    {
        match v {
            0 => Ok(ResponseCode::NoError),
            1 => Ok(ResponseCode::FormatError),
            2 => Ok(ResponseCode::ServerFailure),
            3 => Ok(ResponseCode::NameError),
            4 => Ok(ResponseCode::NotImplemented),
            5 => Ok(ResponseCode::Refused),
            _ => Err(DnsError::UnknownResponseCode(v)),
        }
    }
}

impl TryFromSpecImpl<u16> for ResponseCode {
    open spec fn obeys_try_from_spec() -> bool {
        true
    }

    open spec fn try_from_spec(v: u16) -> Result<ResponseCode, DnsError> {
        ResponseCode::of_code(v)
    }
}

/// What a resource record holds, as named by its 16-bit type field.
#[derive(Clone, Copy, Debug, PartialEq, Eq)]
pub enum RecordType {
    A,
    Ns,
    Cname,
    Soa,
    Wks,
    Ptr,
    Mx,
    Txt,
}

impl RecordType {
    /// The type that `v` stands for on the wire, or the error that carries `v`
    /// where it stands for none.
    pub open spec fn of_code(v: u16) -> Result<RecordType, DnsError> {
        if v == 1 {
            Ok(RecordType::A)
        } else if v == 2 {
            Ok(RecordType::Ns)
        } else if v == 5 {
            Ok(RecordType::Cname)
        } else if v == 6 {
            Ok(RecordType::Soa)
        } else if v == 11 {
            Ok(RecordType::Wks)
        } else if v == 12 {
            Ok(RecordType::Ptr)
        } else if v == 15 {
            Ok(RecordType::Mx)
        } else if v == 16 {
            Ok(RecordType::Txt)
        } else {
            Err(DnsError::UnknownRecordType(v))
        }
    }

    /// The number that stands for this type on the wire.
    pub open spec fn spec_code(self) -> u16 {
        match self {
            RecordType::A => 1,
            RecordType::Ns => 2,
            RecordType::Cname => 5,
            RecordType::Soa => 6,
            RecordType::Wks => 11,
            RecordType::Ptr => 12,
            RecordType::Mx => 15,
            RecordType::Txt => 16,
        }
    }

    /// The number that stands for this type on the wire. Reading that number
    /// back gives this type.
    #[verifier::when_used_as_spec(spec_code)]
    pub fn code(self) -> (v: u16)
        ensures
            v == self.spec_code(),
            RecordType::of_code(v) == Ok::<RecordType, DnsError>(self),
    {
        match self {
            RecordType::A => 1,
            RecordType::Ns => 2,
            RecordType::Cname => 5,
            RecordType::Soa => 6,
            RecordType::Wks => 11,
            RecordType::Ptr => 12,
            RecordType::Mx => 15,
            RecordType::Txt => 16,
        }
    }
}

impl TryFrom<u16> for RecordType {
    type Error = DnsError;

    /// The type that `v` stands for. A number that stands for none is an error
    /// that carries the number.
    fn try_from(v: u16) -> (r: Result<RecordType, DnsError>)
        ensures
            r == RecordType::of_code(v),
            match r {
                Ok(t) => t.spec_code() == v,
                Err(e) => e == DnsError::UnknownRecordType(v) && forall|t: RecordType|
                    t.spec_code() != v,
            },
    {
        match v {
            1 => Ok(RecordType::A),
            2 => Ok(RecordType::Ns),
            5 => Ok(RecordType::Cname),
            6 => Ok(RecordType::Soa),
            11 => Ok(RecordType::Wks),
            12 => Ok(RecordType::Ptr),
            15 => Ok(RecordType::Mx),
            16 => Ok(RecordType::Txt),
            _ => Err(DnsError::UnknownRecordType(v)),
        }
    }
}

impl TryFromSpecImpl<u16> for RecordType {
    open spec fn obeys_try_from_spec() -> bool {
        true
    }

    open spec fn try_from_spec(v: u16) -> Result<RecordType, DnsError> {
        RecordType::of_code(v)
    }
}

} // verus!
