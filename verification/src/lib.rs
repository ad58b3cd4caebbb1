//! Decoder and validator for DNS wire-format messages (RFC 1034 / RFC 1035).
//!
//! The crate is organised leaf-first:
//!
//! - [`domain`] holds the label grammar and the domain-name model;
//! - [`message`] holds the fixed 12-byte header codec and the
//!   compression-aware question decoder.
//!
//! Every decoder is a pure function over a caller-owned byte buffer: it
//! never writes to the buffer, never panics, and reports malformed input
//! through typed errors that identify the offending field or label.

pub mod domain;
pub mod message;
