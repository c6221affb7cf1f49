//! Numeric wire-field codes of RFC 1035: CLASS, QCLASS, OPCODE and RCODE.
//!
//! These are flat integer-to-variant lookups.  The non-extensible fields
//! (CLASS, QCLASS) reject unknown codes with a typed error; OPCODE and RCODE
//! keep unknown codes in a catch-all `Reserved` variant.

use vstd::prelude::*;

use crate::Error;

verus! {

/// The CLASS value according to RFC 1035.
#[derive(Debug, PartialEq, Eq, Structural, Clone, Copy)]
pub enum Class {
    /// the Internet
    IN,
    /// the CSNET class (obsolete, used only for examples in some obsolete
    /// RFCs)
    CS,
    /// the CHAOS class
    CH,
    /// Hesiod [Dyer 87]
    HS,
}

/// The QCLASS value according to RFC 1035.
#[derive(Debug, PartialEq, Eq, Structural, Clone, Copy)]
pub enum QueryClass {
    /// the Internet
    IN,
    /// the CSNET class (obsolete, used only for examples in some obsolete
    /// RFCs)
    CS,
    /// the CHAOS class
    CH,
    /// Hesiod [Dyer 87]
    HS,
    /// Any class
    Any,
}

/// The OPCODE value according to RFC 1035.
#[derive(Debug, PartialEq, Eq, Structural, Clone, Copy)]
pub enum Opcode {
    /// Normal query
    StandardQuery,
    /// Inverse query (query a name by IP)
    InverseQuery,
    /// Server status request
    ServerStatusRequest,
    /// Reserved opcode for future use
    Reserved(u16),
}

/// The RCODE value according to RFC 1035.
#[derive(Debug, PartialEq, Eq, Structural, Clone, Copy)]
pub enum ResponseCode {
    /// No error condition
    NoError,
    /// The name server was unable to interpret the query
    FormatError,
    /// The name server was unable to process this query
    ServerFailure,
    /// The domain name referenced in the query does not exist
    NameError,
    /// The name server does not support the requested kind of query
    NotImplemented,
    /// The name server refuses to perform the specified operation
    Refused,
    /// A code reserved for future use, kept as given
    Reserved(u8),
}

impl Class {
    /// Parse a class code.
    pub fn parse(code: u16) -> (r: Result<Class, Error>)
        ensures
            r == match code {
                1u16 => Ok::<Class, Error>(Class::IN),
                2u16 => Ok::<Class, Error>(Class::CS),
                3u16 => Ok::<Class, Error>(Class::CH),
                4u16 => Ok::<Class, Error>(Class::HS),
                _ => Err::<Class, Error>(Error::InvalidClass(code)),
            },
    {
        match code {
            1 => Ok(Class::IN),
            2 => Ok(Class::CS),
            3 => Ok(Class::CH),
            4 => Ok(Class::HS),
            x => Err(Error::InvalidClass(x)),
        }
    }
}

impl QueryClass {
    /// Parse a query class code.
    pub fn parse(code: u16) -> (r: Result<QueryClass, Error>)
        ensures
            r == match code {
                1u16 => Ok::<QueryClass, Error>(QueryClass::IN),
                2u16 => Ok::<QueryClass, Error>(QueryClass::CS),
                3u16 => Ok::<QueryClass, Error>(QueryClass::CH),
                4u16 => Ok::<QueryClass, Error>(QueryClass::HS),
                255u16 => Ok::<QueryClass, Error>(QueryClass::Any),
                _ => Err::<QueryClass, Error>(Error::InvalidQueryClass(code)),
            },
    {
        match code {
            1 => Ok(QueryClass::IN),
            2 => Ok(QueryClass::CS),
            3 => Ok(QueryClass::CH),
            4 => Ok(QueryClass::HS),
            255 => Ok(QueryClass::Any),
            x => Err(Error::InvalidQueryClass(x)),
        }
    }
}

impl Opcode {
    /// Decode an OPCODE field; unknown codes are kept in `Reserved`.
    pub fn from_code(code: u16) -> (r: Opcode)
        ensures
            r == match code {
                0u16 => Opcode::StandardQuery,
                1u16 => Opcode::InverseQuery,
                2u16 => Opcode::ServerStatusRequest,
                _ => Opcode::Reserved(code),
            },
    {
        match code {
            0 => Opcode::StandardQuery,
            1 => Opcode::InverseQuery,
            2 => Opcode::ServerStatusRequest,
            x => Opcode::Reserved(x),
        }
    }

    /// The wire code of this opcode; the inverse of `from_code` on codes that
    /// decode to a named variant, and the kept code on reserved ones.
    pub fn to_code(self) -> (r: u16)
        ensures
            r == match self {
                Opcode::StandardQuery => 0u16,
                Opcode::InverseQuery => 1u16,
                Opcode::ServerStatusRequest => 2u16,
                Opcode::Reserved(x) => x,
            },
    {
        match self {
            Opcode::StandardQuery => 0,
            Opcode::InverseQuery => 1,
            Opcode::ServerStatusRequest => 2,
            Opcode::Reserved(x) => x,
        }
    }
}

impl ResponseCode {
    /// Decode an RCODE field; unknown codes are kept in `Reserved`.
    pub fn from_code(code: u8) -> (r: ResponseCode)
        ensures
            r == match code {
                0u8 => ResponseCode::NoError,
                1u8 => ResponseCode::FormatError,
                2u8 => ResponseCode::ServerFailure,
                3u8 => ResponseCode::NameError,
                4u8 => ResponseCode::NotImplemented,
                5u8 => ResponseCode::Refused,
                _ => ResponseCode::Reserved(code),
            },
    {
        match code {
            0 => ResponseCode::NoError,
            1 => ResponseCode::FormatError,
            2 => ResponseCode::ServerFailure,
            3 => ResponseCode::NameError,
            4 => ResponseCode::NotImplemented,
            5 => ResponseCode::Refused,
            x => ResponseCode::Reserved(x),
        }
    }

    /// The wire code of this response code; the inverse of `from_code` on
    /// codes that decode to a named variant, and the kept code on reserved
    /// ones.
    pub fn to_code(self) -> (r: u8)
        ensures
            r == match self {
                ResponseCode::NoError => 0u8,
                ResponseCode::FormatError => 1u8,
                ResponseCode::ServerFailure => 2u8,
                ResponseCode::NameError => 3u8,
                ResponseCode::NotImplemented => 4u8,
                ResponseCode::Refused => 5u8,
                ResponseCode::Reserved(x) => x,
            },
    {
        match self {
            ResponseCode::NoError => 0,
            ResponseCode::FormatError => 1,
            ResponseCode::ServerFailure => 2,
            ResponseCode::NameError => 3,
            ResponseCode::NotImplemented => 4,
            ResponseCode::Refused => 5,
            ResponseCode::Reserved(x) => x,
        }
    }
}

} // verus!
