//! Decoder for the domain-name wire encoding of DNS messages (RFC 1035).
//!
//! The core of the crate is [`name::Name`]: a validated, borrowed view into a
//! received packet buffer.  [`name::Name::scan`] checks a candidate name in
//! place — following compression pointers, guarding against loops, truncation
//! and malformed labels — and every later operation (length, lazy byte
//! expansion, textual rendering) relies on that one validation pass.
//! [`enums`] holds the flat numeric-code mappings for the CLASS, QCLASS,
//! OPCODE and RCODE wire fields.

use vstd::prelude::*;

pub mod enums;
pub mod name;
pub mod text;
pub mod wire;

pub use enums::Class;
pub use enums::Opcode;
pub use enums::QueryClass;
pub use enums::ResponseCode;
pub use name::Name;
pub use name::NameBytes;

verus! {

/// Everything that can go wrong while decoding a name or a numeric code.
///
/// Name scanning reports the first failure it meets and attempts no recovery.
#[derive(Clone, Copy, Debug, PartialEq, Eq, Structural)]
pub enum Error {
    /// The buffer ended while a length byte, pointer bytes or label bytes
    /// were still owed.
    UnexpectedEOF,
    /// A compression pointer targets an offset at or beyond the buffer end,
    /// or fails the strictly-decreasing chain guard (self, forward or cyclic
    /// reference).
    BadPointer,
    /// A label's bytes are not valid UTF-8.
    LabelIsNotUtf8,
    /// A length byte uses one of the reserved top-bit patterns `01` or `10`.
    UnknownLabelFormat,
    /// A QCLASS code outside the defined range, carrying the code.
    InvalidQueryClass(u16),
    /// A CLASS code outside the defined range, carrying the code.
    InvalidClass(u16),
}

} // verus!
