//! Domain names and the RFC 1034 label grammar.

pub mod error;
pub mod name;
