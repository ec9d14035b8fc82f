//! Message-bus naming.

pub mod topics;
pub mod sink;
