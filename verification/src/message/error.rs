//! Errors reported while decoding the DNS message header.

use vstd::prelude::*;

verus! {

/// The 4-bit OPCODE field held a reserved value (3 to 15); carries the
/// offending value.
#[derive(Debug, PartialEq, Eq, Structural)]
pub struct OpCodeTryFromError(pub u16);

/// The 3-bit reserved Z field held a non-zero value.  The bits must always
/// be zero, so no payload is needed.
#[derive(Debug, PartialEq, Eq, Structural)]
pub struct ZTryFromError;

/// The 4-bit RCODE field held a reserved value (6 to 15); carries the
/// offending value.
#[derive(Debug, PartialEq, Eq, Structural)]
pub struct RCodeTryFromError(pub u16);

/// Why a byte buffer failed to decode as a message header: fewer than 12
/// bytes were available (carrying the length actually found), or one of
/// the three flag fields failed, checked in the order OPCODE, Z, RCODE.
#[derive(Debug, PartialEq, Eq, Structural)]
pub enum HeaderTryFromError {
    InsufficientHeaderBytes(usize),
    OpCodeTryFromError(OpCodeTryFromError),
    ZTryFromError(ZTryFromError),
    RCodeTryFromError(RCodeTryFromError),
}

impl From<OpCodeTryFromError> for HeaderTryFromError {
    fn from(error: OpCodeTryFromError) -> (r: HeaderTryFromError) {
        HeaderTryFromError::OpCodeTryFromError(error)
    }
}

impl vstd::std_specs::convert::FromSpecImpl<OpCodeTryFromError> for HeaderTryFromError {
    open spec fn obeys_from_spec() -> bool {
        true
    }

    open spec fn from_spec(v: OpCodeTryFromError) -> HeaderTryFromError {
        HeaderTryFromError::OpCodeTryFromError(v)
    }
}

impl From<ZTryFromError> for HeaderTryFromError {
    fn from(error: ZTryFromError) -> (r: HeaderTryFromError) {
        HeaderTryFromError::ZTryFromError(error)
    }
}

impl vstd::std_specs::convert::FromSpecImpl<ZTryFromError> for HeaderTryFromError {
    open spec fn obeys_from_spec() -> bool {
        true
    }

    open spec fn from_spec(v: ZTryFromError) -> HeaderTryFromError {
        HeaderTryFromError::ZTryFromError(v)
    }
}

impl From<RCodeTryFromError> for HeaderTryFromError {
    fn from(error: RCodeTryFromError) -> (r: HeaderTryFromError) {
        HeaderTryFromError::RCodeTryFromError(error)
    }
}

impl vstd::std_specs::convert::FromSpecImpl<RCodeTryFromError> for HeaderTryFromError {
    open spec fn obeys_from_spec() -> bool {
        true
    }

    open spec fn from_spec(v: RCodeTryFromError) -> HeaderTryFromError {
        HeaderTryFromError::RCodeTryFromError(v)
    }
}

} // verus!
