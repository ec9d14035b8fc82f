//! Decoder errors.

use vstd::prelude::*;

verus! {

/// Errors raised while decoding BMP and BGP messages.
#[derive(Debug, Clone, PartialEq, Eq)]
pub enum Error {
    /// Malformed BMP content; the text says what was wrong.
    BmpParse(String),
    /// Malformed BGP content; the text says what was wrong.
    BgpParse(String),
    /// The buffer ended early.
    UnexpectedEof { needed: usize, have: usize },
    /// The BMP version byte was not 3.
    InvalidBmpVersion(u8),
    /// The BMP message type byte is not defined.
    InvalidMessageType(u8),
    /// The BMP frame is larger than allowed (length, limit).
    FrameTooLarge(u32, u32),
    /// The BGP marker is not sixteen 0xFF bytes.
    InvalidBgpMarker,
    /// The BGP message type is not the one expected.
    InvalidBgpMessageType(u8),
    /// Unsupported address family.
    InvalidAfi(u16),
    /// Unsupported subsequent address family.
    InvalidSafi(u8),
    /// A prefix length exceeds the width of its address family.
    InvalidPrefixLen { prefix_len: u8, afi: u16 },
    /// A path attribute declares more bytes than remain.
    TruncatedAttribute { attr_type: u8, declared: usize, available: usize },
}

/// Model of an error (messages as character sequences).
pub enum ErrorModel {
    BmpParse(Seq<char>),
    BgpParse(Seq<char>),
    UnexpectedEof { needed: usize, have: usize },
    InvalidBmpVersion(u8),
    InvalidMessageType(u8),
    FrameTooLarge(u32, u32),
    InvalidBgpMarker,
    InvalidBgpMessageType(u8),
    InvalidAfi(u16),
    InvalidSafi(u8),
    InvalidPrefixLen { prefix_len: u8, afi: u16 },
    TruncatedAttribute { attr_type: u8, declared: usize, available: usize },
}

impl View for Error {
    type V = ErrorModel;

    open spec fn view(&self) -> ErrorModel {
        match self {
            Error::BmpParse(m) => ErrorModel::BmpParse(m@),
            Error::BgpParse(m) => ErrorModel::BgpParse(m@),
            Error::UnexpectedEof { needed, have } => ErrorModel::UnexpectedEof {
                needed: *needed,
                have: *have,
            },
            Error::InvalidBmpVersion(v) => ErrorModel::InvalidBmpVersion(*v),
            Error::InvalidMessageType(v) => ErrorModel::InvalidMessageType(*v),
            Error::FrameTooLarge(a, b) => ErrorModel::FrameTooLarge(*a, *b),
            Error::InvalidBgpMarker => ErrorModel::InvalidBgpMarker,
            Error::InvalidBgpMessageType(v) => ErrorModel::InvalidBgpMessageType(*v),
            Error::InvalidAfi(v) => ErrorModel::InvalidAfi(*v),
            Error::InvalidSafi(v) => ErrorModel::InvalidSafi(*v),
            Error::InvalidPrefixLen { prefix_len, afi } => ErrorModel::InvalidPrefixLen {
                prefix_len: *prefix_len,
                afi: *afi,
            },
            Error::TruncatedAttribute { attr_type, declared, available } =>
                ErrorModel::TruncatedAttribute {
                attr_type: *attr_type,
                declared: *declared,
                available: *available,
            },
        }
    }
}

/// Shorthand for the end-of-buffer error model.
pub open spec fn eof(needed: int, have: int) -> ErrorModel {
    ErrorModel::UnexpectedEof { needed: needed as usize, have: have as usize }
}

/// The model of a result: both sides by their views.
pub open spec fn res_view<T: View, E: View>(r: Result<T, E>) -> Result<T::V, E::V> {
    match r {
        Ok(t) => Ok(t@),
        Err(e) => Err(e@),
    }
}

} // verus!
