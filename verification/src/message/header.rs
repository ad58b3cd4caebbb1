//! The fixed 12-byte DNS message header codec (RFC 1035, Section 4.1.1).
//!
//! Wire layout, most significant bit first:
//!
//! ```text
//!                                 1  1  1  1  1  1
//!   0  1  2  3  4  5  6  7  8  9  0  1  2  3  4  5
//! +--+--+--+--+--+--+--+--+--+--+--+--+--+--+--+--+
//! |                      ID                       |
//! +--+--+--+--+--+--+--+--+--+--+--+--+--+--+--+--+
//! |QR|   OPCODE  |AA|TC|RD|RA|   Z    |   RCODE   |
//! +--+--+--+--+--+--+--+--+--+--+--+--+--+--+--+--+
//! |                    QDCOUNT                    |
//! +--+--+--+--+--+--+--+--+--+--+--+--+--+--+--+--+
//! |                    ANCOUNT                    |
//! +--+--+--+--+--+--+--+--+--+--+--+--+--+--+--+--+
//! |                    NSCOUNT                    |
//! +--+--+--+--+--+--+--+--+--+--+--+--+--+--+--+--+
//! |                    ARCOUNT                    |
//! +--+--+--+--+--+--+--+--+--+--+--+--+--+--+--+--+
//! ```

use crate::message::error::{
    HeaderTryFromError, OpCodeTryFromError, RCodeTryFromError, ZTryFromError,
};
use vstd::prelude::*;

verus! {

/// Number of bytes in a DNS message header.
pub const HEADER_LENGTH: usize = 12;

/// The 16-bit integer that two bytes encode in big-endian order.
pub open spec fn spec_u16_from_be(hi: u8, lo: u8) -> u16 {
    ((hi as u16) * 256 + lo as u16) as u16
}

/// Reads a big-endian 16-bit integer from two bytes.
fn u16_from_be(hi: u8, lo: u8) -> (r: u16)
    ensures
        r == spec_u16_from_be(hi, lo),
{
    (hi as u16) * 256 + (lo as u16)
}

/// The QR bit of the flags word: bit 15.
pub open spec fn spec_qr_bit(flags: u16) -> u16 {
    (flags >> 15) & 1
}

/// The 4-bit OPCODE field of the flags word: bits 14 down to 11.
pub open spec fn spec_opcode_bits(flags: u16) -> u16 {
    (flags >> 11) & 0xf
}

/// The 3-bit reserved Z field of the flags word: bits 6 down to 4.
pub open spec fn spec_z_bits(flags: u16) -> u16 {
    (flags >> 4) & 0x7
}

/// The 4-bit RCODE field of the flags word: bits 3 down to 0.
pub open spec fn spec_rcode_bits(flags: u16) -> u16 {
    flags & 0xf
}

/// Whether the message is a query or a response: the QR bit of the header
/// flags word.  Both values are legal, so extraction never fails.
#[derive(Debug, PartialEq, Eq, Structural, Clone, Copy)]
pub enum QR {
    Query,
    Response,
}

/// The QR value that a flags word encodes.
pub open spec fn spec_qr(flags: u16) -> QR {
    if spec_qr_bit(flags) == 0 {
        QR::Query
    } else {
        QR::Response
    }
}

impl QR {
    /// Reads the QR bit from the flags portion of a DNS message header:
    /// clear means query, set means response.
    pub fn from(value: u16) -> (r: QR)
        ensures
            r == spec_qr(value),
    {
        if (value >> 15) & 1 == 0 {
            QR::Query
        } else {
            QR::Response
        }
    }
}

/// The kind of query the message carries.  Of the 16 possible 4-bit
/// values only `0` (a standard query), `1` (an inverse query), and `2` (a
/// server status request) are supported; the rest are reserved.
#[derive(Debug, PartialEq, Eq, Structural, Clone, Copy)]
pub enum OpCode {
    Query,
    InverseQuery,
    Status,
}

/// The opcode that a 4-bit field value names, if it is a supported one.
pub open spec fn spec_opcode(bits: u16) -> Option<OpCode> {
    if bits == 0 {
        Some(OpCode::Query)
    } else if bits == 1 {
        Some(OpCode::InverseQuery)
    } else if bits == 2 {
        Some(OpCode::Status)
    } else {
        None
    }
}

impl OpCode {
    /// Tries to extract the OPCODE field from the flags portion of a DNS
    /// message header.  Reserved values in range 3 to 15 are rejected with
    /// an error carrying the offending value.
    pub fn try_from(value: u16) -> (r: Result<OpCode, OpCodeTryFromError>)
        ensures
            spec_opcode(spec_opcode_bits(value)) matches Some(op) ==> r == Ok::<
                OpCode,
                OpCodeTryFromError,
            >(op),
            spec_opcode(spec_opcode_bits(value)) is None ==> r == Err::<
                OpCode,
                OpCodeTryFromError,
            >(OpCodeTryFromError(spec_opcode_bits(value))),
    {
        let bits = (value >> 11) & 0xf;
        match bits {
            0 => Ok(OpCode::Query),
            1 => Ok(OpCode::InverseQuery),
            2 => Ok(OpCode::Status),
            _ => Err(OpCodeTryFromError(bits)),
        }
    }
}

/// The reserved Z field of the header flags word.  All three bits are
/// reserved, so the only legal value is zero.
#[derive(Debug, PartialEq, Eq, Structural, Clone, Copy)]
pub enum Z {
    AllZeros,
}

impl Z {
    /// Tries to extract the Z field from the flags portion of a DNS
    /// message header; any non-zero value is rejected.
    pub fn try_from(value: u16) -> (r: Result<Z, ZTryFromError>)
        ensures
            spec_z_bits(value) == 0 ==> r == Ok::<Z, ZTryFromError>(Z::AllZeros),
            spec_z_bits(value) != 0 ==> r == Err::<Z, ZTryFromError>(ZTryFromError),
    {
        if (value >> 4) & 0x7 == 0 {
            Ok(Z::AllZeros)
        } else {
            Err(ZTryFromError)
        }
    }
}

/// The result status of a response.  Of the 16 possible 4-bit values only
/// `0` to `5` are supported; the rest are reserved.
#[derive(Debug, PartialEq, Eq, Structural, Clone, Copy)]
pub enum RCode {
    NoError,
    FormatError,
    ServerFailure,
    NameError,
    NotImplemented,
    Refused,
}

/// The result code that a 4-bit field value names, if it is a supported
/// one.
pub open spec fn spec_rcode(bits: u16) -> Option<RCode> {
    if bits == 0 {
        Some(RCode::NoError)
    } else if bits == 1 {
        Some(RCode::FormatError)
    } else if bits == 2 {
        Some(RCode::ServerFailure)
    } else if bits == 3 {
        Some(RCode::NameError)
    } else if bits == 4 {
        Some(RCode::NotImplemented)
    } else if bits == 5 {
        Some(RCode::Refused)
    } else {
        None
    }
}

impl RCode {
    /// Tries to extract the RCODE field from the flags portion of a DNS
    /// message header.  Reserved values in range 6 to 15 are rejected with
    /// an error carrying the offending value.
    pub fn try_from(value: u16) -> (r: Result<RCode, RCodeTryFromError>)
        ensures
            spec_rcode(spec_rcode_bits(value)) matches Some(rc) ==> r == Ok::<
                RCode,
                RCodeTryFromError,
            >(rc),
            spec_rcode(spec_rcode_bits(value)) is None ==> r == Err::<
                RCode,
                RCodeTryFromError,
            >(RCodeTryFromError(spec_rcode_bits(value))),
    {
        let bits = value & 0xf;
        match bits {
            0 => Ok(RCode::NoError),
            1 => Ok(RCode::FormatError),
            2 => Ok(RCode::ServerFailure),
            3 => Ok(RCode::NameError),
            4 => Ok(RCode::NotImplemented),
            5 => Ok(RCode::Refused),
            _ => Err(RCodeTryFromError(bits)),
        }
    }
}

/// Reads the AA (authoritative answer) bit of the flags word: bit 10.
pub fn parse_aa_flag(value: u16) -> (r: bool)
    ensures
        r == ((value >> 10) & 1 == 1),
{
    (value >> 10) & 1 == 1
}

/// Reads the TC (truncation) bit of the flags word: bit 9.
pub fn parse_tc_flag(value: u16) -> (r: bool)
    ensures
        r == ((value >> 9) & 1 == 1),
{
    (value >> 9) & 1 == 1
}

/// Reads the RD (recursion desired) bit of the flags word: bit 8.
pub fn parse_rd_flag(value: u16) -> (r: bool)
    ensures
        r == ((value >> 8) & 1 == 1),
{
    (value >> 8) & 1 == 1
}

/// Reads the RA (recursion available) bit of the flags word: bit 7.
pub fn parse_ra_flag(value: u16) -> (r: bool)
    ensures
        r == ((value >> 7) & 1 == 1),
{
    (value >> 7) & 1 == 1
}

/// `Header` section of a DNS message.
///
/// The header section is always present.  It includes fields that specify
/// which of the remaining sections are present, and also specify whether
/// the message is a query or a response, a standard query or some other
/// opcode, and how the request ended.
#[derive(Debug, PartialEq, Eq, Structural)]
pub struct Header {
    pub id: u16,
    pub qr: QR,
    pub op_code: OpCode,
    pub aa: bool,
    pub tc: bool,
    pub rd: bool,
    pub ra: bool,
    pub z: Z,
    pub r_code: RCode,
    pub qd_count: u16,
    pub an_count: u16,
    pub ns_count: u16,
    pub ar_count: u16,
}

/// What decoding a header buffer yields, field by field: fewer than 12
/// bytes fail with the length found; then the OPCODE, Z, and RCODE fields
/// of the flags word are checked in that order, and the first reserved
/// value aborts the decode; otherwise every field is read as the wire
/// layout above lays it out.
pub open spec fn spec_decode_header(b: Seq<u8>) -> Result<Header, HeaderTryFromError> {
    if b.len() < HEADER_LENGTH {
        Err(HeaderTryFromError::InsufficientHeaderBytes(b.len() as usize))
    } else {
        let flags = spec_u16_from_be(b[2], b[3]);
        match spec_opcode(spec_opcode_bits(flags)) {
            None => Err(
                HeaderTryFromError::OpCodeTryFromError(
                    OpCodeTryFromError(spec_opcode_bits(flags)),
                ),
            ),
            Some(op) => if spec_z_bits(flags) != 0 {
                Err(HeaderTryFromError::ZTryFromError(ZTryFromError))
            } else {
                match spec_rcode(spec_rcode_bits(flags)) {
                    None => Err(
                        HeaderTryFromError::RCodeTryFromError(
                            RCodeTryFromError(spec_rcode_bits(flags)),
                        ),
                    ),
                    Some(rc) => Ok(
                        Header {
                            id: spec_u16_from_be(b[0], b[1]),
                            qr: spec_qr(flags),
                            op_code: op,
                            aa: (flags >> 10) & 1 == 1,
                            tc: (flags >> 9) & 1 == 1,
                            rd: (flags >> 8) & 1 == 1,
                            ra: (flags >> 7) & 1 == 1,
                            z: Z::AllZeros,
                            r_code: rc,
                            qd_count: spec_u16_from_be(b[4], b[5]),
                            an_count: spec_u16_from_be(b[6], b[7]),
                            ns_count: spec_u16_from_be(b[8], b[9]),
                            ar_count: spec_u16_from_be(b[10], b[11]),
                        },
                    ),
                }
            },
        }
    }
}

/// Header failure law: a buffer of fewer than 12 bytes always fails with
/// `InsufficientHeaderBytes` carrying the length actually found, and a
/// buffer of at least 12 bytes whose OPCODE field holds any reserved value
/// (3 to 15) always fails with `OpCodeTryFromError` carrying exactly that
/// value.  [`Header::try_from`] returns [`spec_decode_header`] of its
/// input, so this pins down both failures for it.
pub proof fn lemma_header_decode_failures(b: Seq<u8>)
    ensures
        b.len() < 12 ==> spec_decode_header(b) == Err::<Header, HeaderTryFromError>(
            HeaderTryFromError::InsufficientHeaderBytes(b.len() as usize),
        ),
        b.len() >= 12 && spec_opcode_bits(spec_u16_from_be(b[2], b[3])) > 2
            ==> spec_decode_header(b) == Err::<Header, HeaderTryFromError>(
            HeaderTryFromError::OpCodeTryFromError(
                OpCodeTryFromError(spec_opcode_bits(spec_u16_from_be(b[2], b[3]))),
            ),
        ),
{
}

impl Header {
    /// Tries to decode a byte slice as a DNS message header.
    ///
    /// A valid header requires at least 12 bytes; shorter input fails with
    /// the length found.  The OPCODE, Z, and RCODE fields must each hold a
    /// supported value, checked in that order, and the first reserved
    /// value aborts the decode with an error naming the field.
    pub fn try_from(value: &[u8]) -> (r: Result<Header, HeaderTryFromError>)
        ensures
            r == spec_decode_header(value@),
    {
        if value.len() < HEADER_LENGTH {
            return Err(HeaderTryFromError::InsufficientHeaderBytes(value.len()));
        }
        let flags = u16_from_be(value[2], value[3]);
        let op_code = match OpCode::try_from(flags) {
            Ok(op) => op,
            Err(e) => {
                return Err(HeaderTryFromError::from(e));
            },
        };
        let z = match Z::try_from(flags) {
            Ok(z) => z,
            Err(e) => {
                return Err(HeaderTryFromError::from(e));
            },
        };
        let r_code = match RCode::try_from(flags) {
            Ok(rc) => rc,
            Err(e) => {
                return Err(HeaderTryFromError::from(e));
            },
        };
        Ok(
            Header {
                id: u16_from_be(value[0], value[1]),
                qr: QR::from(flags),
                op_code,
                aa: parse_aa_flag(flags),
                tc: parse_tc_flag(flags),
                rd: parse_rd_flag(flags),
                ra: parse_ra_flag(flags),
                z,
                r_code,
                qd_count: u16_from_be(value[4], value[5]),
                an_count: u16_from_be(value[6], value[7]),
                ns_count: u16_from_be(value[8], value[9]),
                ar_count: u16_from_be(value[10], value[11]),
            },
        )
    }
}

} // verus!
