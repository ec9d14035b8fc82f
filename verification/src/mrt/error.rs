//! Errors of MRT decoding.

use vstd::prelude::*;
use crate::error::Error;

verus! {

/// Why an MRT record could not be read or decoded.
#[derive(Debug)]
pub enum MrtError {
    /// Reading the input failed; the text says how.
    Io(String),
    /// A record or field is shorter than it must be.
    TooShort { need: usize, have: usize },
    /// The record's type and subtype are not handled.
    UnsupportedType { mrt_type: u16, subtype: u16 },
    /// The BGP content failed to decode.
    BgpParse(Error),
    /// A prefix length too large for its address family.
    InvalidPrefixLen(u8),
}

} // verus!
