//! BGP Monitoring Protocol (RFC 7854) message model and decoders.

pub mod types;
pub mod path_status_tlv;
pub mod parser;
