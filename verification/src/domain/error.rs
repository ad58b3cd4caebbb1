//! Errors reported while parsing domain names and labels.

use vstd::prelude::*;

verus! {

/// Declares `std::string::FromUtf8Error` to the verifier so that it can be
/// carried inside [`TryFromError`].  The value is opaque: nothing is claimed
/// about its contents.
#[verifier::external_type_specification]
#[verifier::external_body]
pub struct ExFromUtf8Error(std::string::FromUtf8Error);

/// Why a byte string or text string failed to parse as a domain name.
///
/// Each variant carries enough context to produce a precise diagnostic:
/// the offending label text, or the underlying text-decoding failure.
#[derive(Debug, PartialEq)]
pub enum TryFromError {
    /// The domain input was empty.
    DomainEmpty,
    /// One of the dot-separated labels was empty.
    LabelEmpty,
    /// The label exceeds [`crate::domain::name::MAX_LABEL_LENGTH`] bytes;
    /// carries the decoded label text.
    LabelTooLong(String),
    /// The label bytes are not valid UTF-8; carries the decoding failure.
    LabelInvalidEncoding(std::string::FromUtf8Error),
    /// The label text breaks the letter-digit-hyphen grammar; carries the
    /// decoded label text.
    LabelInvalidFormat(String),
}

} // verus!
