//! DNS message decoding: the fixed 12-byte header and the question section.

pub mod error;
pub mod header;
pub mod question;

use vstd::prelude::*;

verus! {

/// `Message` format used by the DNS protocol (RFC 1035, Section 4): the
/// header section, always present, followed by the question and record
/// sections that its counts announce.
pub struct Message {
    pub header: header::Header,
}

} // verus!
