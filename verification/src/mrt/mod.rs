//! MRT (RFC 6396) routing-information export: record framing, BGP4MP and
//! TABLE_DUMP_V2 encoding, and decoding of what is written.

pub mod types;
pub mod error;
pub mod reader;
pub mod writer;
