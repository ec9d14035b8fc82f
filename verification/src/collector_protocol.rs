//! Framing between edge collectors and the core: each frame is a 4-byte
//! big-endian length followed by that many bytes of encoded envelope, at
//! most 8 MiB.

use vstd::prelude::*;
use crate::error::{Error, ErrorModel};
use crate::net::IpAddress;
use crate::rib::session::Timestamp;
use crate::wire::{be32_at, put_slice, put_u32, read_u32, u32_be};

verus! {

/// Default TCP port of the collector protocol.
pub const COLLECTOR_PORT: u16 = 5001;

/// Largest frame body accepted: 8 MiB.
pub const MAX_FRAME_BYTES: u32 = 8388608;

/// One BMP PDU as an edge collector forwards it.
#[derive(Debug, Clone)]
pub struct CollectorEnvelope {
    /// Collector identifier, such as a host name.
    pub collector_id: String,
    /// Deployment site label.
    pub site: String,
    /// Address of the BMP speaker, as the collector saw it.
    pub speaker_addr: IpAddress,
    /// When the collector received the PDU.
    pub received_at: Timestamp,
    /// The BMP PDU, header included.
    pub raw_bmp: Vec<u8>,
}

/// The frame of an encoded envelope `payload`.
pub open spec fn frame_bytes(payload: Seq<u8>) -> Seq<u8> {
    u32_be(payload.len() as u32) + payload
}

/// Frames an encoded envelope: its length, then its bytes. A payload over
/// the limit is refused with its length (low 32 bits) and the limit.
pub fn frame_payload(payload: &[u8]) -> (r: Result<Vec<u8>, Error>)
    ensures
        payload.len() > MAX_FRAME_BYTES ==> (r matches Err(e) && e@ == ErrorModel::FrameTooLarge(
            payload.len() as u32,
            MAX_FRAME_BYTES,
        )),
        payload.len() <= MAX_FRAME_BYTES ==> (r matches Ok(v) && v@ == frame_bytes(payload@)),
{
    if payload.len() > MAX_FRAME_BYTES as usize {
        return Err(Error::FrameTooLarge(payload.len() as u32, MAX_FRAME_BYTES));
    }
    let mut buf: Vec<u8> = Vec::new();
    put_u32(&mut buf, payload.len() as u32);
    put_slice(&mut buf, payload);
    assert(buf@ =~= frame_bytes(payload@));
    Ok(buf)
}

/// The body length a frame's 4-byte prefix declares; a length over the limit
/// is refused with that length and the limit.
pub fn frame_body_len(len_buf: [u8; 4]) -> (r: Result<u32, Error>)
    ensures
        be32_at(len_buf@, 0) > MAX_FRAME_BYTES ==> (r matches Err(e) && e@ == ErrorModel::FrameTooLarge(
            be32_at(len_buf@, 0) as u32,
            MAX_FRAME_BYTES,
        )),
        be32_at(len_buf@, 0) <= MAX_FRAME_BYTES ==> r == Ok::<u32, Error>(be32_at(len_buf@, 0) as u32),
{
    let len = read_u32(&len_buf, 0);
    if len > MAX_FRAME_BYTES {
        return Err(Error::FrameTooLarge(len, MAX_FRAME_BYTES));
    }
    Ok(len)
}

/// A framed payload's prefix declares the payload's length, which is
/// accepted.
pub proof fn lemma_frame_length_read_back(payload: Seq<u8>)
    requires
        payload.len() <= MAX_FRAME_BYTES,
    ensures
        be32_at(frame_bytes(payload), 0) == payload.len(),
        frame_bytes(payload).subrange(4, frame_bytes(payload).len() as int) == payload,
{
    crate::wire::lemma_u32_be(payload.len() as u32);
    assert(be32_at(frame_bytes(payload), 0) == be32_at(u32_be(payload.len() as u32), 0));
    assert(frame_bytes(payload).subrange(4, frame_bytes(payload).len() as int) =~= payload);
}

} // verus!
