//! MRT reading: record framing and the BGP4MP peer header.

use vstd::prelude::*;
use vstd::string::StringExecFns;
use crate::mrt::error::MrtError;
use crate::net::{IpAddress, IpModel, ip_at, read_ip};
use crate::wire::{be16_at, be32_at, copy_range, read_u16, read_u32};

verus! {

/// Length of the MRT common header.
pub const MRT_HEADER_LEN: usize = 12;

/// One MRT record: header fields and body.
#[derive(Debug)]
pub struct MrtRecord {
    /// Seconds since the Unix epoch.
    pub timestamp: u32,
    pub mrt_type: u16,
    pub subtype: u16,
    pub body: Vec<u8>,
}

impl MrtRecord {
    /// Whether this is a TABLE_DUMP_V2 record.
    pub fn is_table_dump_v2(&self) -> (r: bool)
        ensures
            r == (self.mrt_type == 13),
    {
        self.mrt_type == 13
    }

    /// Whether this is a BGP4MP record.
    pub fn is_bgp4mp(&self) -> (r: bool)
        ensures
            r == (self.mrt_type == 16),
    {
        self.mrt_type == 16
    }
}

/// The message of an input that ends inside a record body.
pub open spec fn eof_text() -> Seq<char> {
    "failed to fill whole buffer"@
}

/// A record as values: timestamp, type, subtype, body.
pub type RecordModel = (u32, u16, u16, Seq<u8>);

/// Reading a record from the front of `d`: `Ok(None)` when fewer than twelve
/// bytes remain, `Err(())` when the body is cut short, else the record and
/// the bytes it spans.
pub open spec fn spec_read_record(d: Seq<u8>) -> Result<Option<(RecordModel, int)>, ()> {
    if d.len() < 12 {
        Ok(None)
    } else if d.len() - 12 < be32_at(d, 8) {
        Err(())
    } else {
        let n = 12 + be32_at(d, 8);
        Ok(
            Some(
                (
                    (be32_at(d, 0) as u32, be16_at(d, 4) as u16, be16_at(d, 6) as u16, d.subrange(12, n)),
                    n,
                ),
            ),
        )
    }
}

pub open spec fn record_view(r: MrtRecord) -> RecordModel {
    (r.timestamp, r.mrt_type, r.subtype, r.body@)
}

/// Reads the record at the front of `data`; with it, the number of bytes it
/// spans.
pub fn read_record(data: &[u8]) -> (r: Result<Option<(MrtRecord, usize)>, MrtError>)
    ensures
        match spec_read_record(data@) {
            Ok(None) => r matches Ok(None),
            Err(()) => r matches Err(MrtError::Io(m)) && m@ == eof_text(),
            Ok(Some((m, n))) => r matches Ok(Some((rec, k))) && record_view(rec) == m && k == n,
        },
{
    reveal(spec_read_record);
    if data.len() < MRT_HEADER_LEN {
        return Ok(None);
    }
    let ts = read_u32(data, 0);
    let mrt_type = read_u16(data, 4);
    let subtype = read_u16(data, 6);
    let length = read_u32(data, 8) as usize;
    if data.len() - 12 < length {
        return Err(MrtError::Io(String::from_str("failed to fill whole buffer")));
    }
    let body = copy_range(data, 12, length);
    Ok(Some((MrtRecord { timestamp: ts, mrt_type, subtype, body }, 12 + length)))
}

/// The records of `d` read one after another, up to fewer than twelve
/// remaining bytes; `None` when a body is cut short.
pub open spec fn spec_records(d: Seq<u8>) -> Option<Seq<RecordModel>>
    decreases d.len(),
{
    match spec_read_record(d) {
        Ok(None) => Some(Seq::empty()),
        Err(()) => None,
        Ok(Some((m, n))) => if 12 <= n <= d.len() {
            match spec_records(d.skip(n)) {
                Some(rest) => Some(seq![m] + rest),
                None => None,
            }
        } else {
            None
        },
    }
}

pub open spec fn records_view(v: Seq<MrtRecord>) -> Seq<RecordModel> {
    v.map_values(|r: MrtRecord| record_view(r))
}

/// Reads MRT records one at a time from an input held in memory.
pub struct MrtReader {
    data: Vec<u8>,
    pos: usize,
}

impl MrtReader {
    /// A reader at the start of `inner`.
    pub fn new(inner: Vec<u8>) -> (r: MrtReader)
        ensures
            r.rest() == inner@,
    {
        let r = MrtReader { data: inner, pos: 0 };
        assert(r.data@.skip(0) =~= inner@);
        r
    }

    /// The input not read yet.
    pub closed spec fn rest(&self) -> Seq<u8> {
        self.data@.skip(self.pos as int)
    }

    pub closed spec fn wf(&self) -> bool {
        self.pos <= self.data.len()
    }

    /// The next record: `None` at the end of the input, an error (after
    /// which nothing is left) when its body is cut short.
    pub fn next_record(&mut self) -> (r: Option<Result<MrtRecord, MrtError>>)
        requires
            old(self).wf(),
        ensures
            final(self).wf(),
            match spec_read_record(old(self).rest()) {
                Ok(None) => r is None && final(self).rest() == old(self).rest(),
                Err(()) => (r matches Some(Err(MrtError::Io(m))) && m@ == eof_text()) && final(self).rest()
                    == Seq::<u8>::empty(),
                Ok(Some((m, n))) => (r matches Some(Ok(rec)) && record_view(rec) == m) && final(self).rest()
                    == old(self).rest().skip(n),
            },
    {
        let tail = copy_range(self.data.as_slice(), self.pos, self.data.len() - self.pos);
        assert(tail@ =~= self.rest());
        match read_record(tail.as_slice()) {
            Ok(None) => None,
            Err(e) => {
                self.pos = self.data.len();
                assert(self.rest() =~= Seq::<u8>::empty());
                Some(Err(e))
            },
            Ok(Some((rec, n))) => {
                let ghost before = old(self).rest();
                self.pos = self.pos + n;
                assert(self.rest() =~= before.skip(n as int));
                Some(Ok(rec))
            },
        }
    }

    /// Every remaining record, or the error that stops reading.
    pub fn read_all(&mut self) -> (r: Result<Vec<MrtRecord>, MrtError>)
        requires
            old(self).wf(),
        ensures
            final(self).wf(),
            match spec_records(old(self).rest()) {
                Some(ms) => r matches Ok(v) && records_view(v@) == ms,
                None => r is Err,
            },
    {
        let mut out: Vec<MrtRecord> = Vec::new();
        let ghost start = self.rest();
        loop
            invariant
                self.wf(),
                start == old(self).rest(),
                spec_records(start) == match spec_records(self.rest()) {
                    Some(ms) => Some(records_view(out@) + ms),
                    None => None::<Seq<RecordModel>>,
                },
            decreases self.rest().len(),
        {
            let ghost before = self.rest();
            let ghost outv = records_view(out@);
            match self.next_record() {
                None => {
                    assert(outv + Seq::<RecordModel>::empty() =~= outv);
                    return Ok(out);
                },
                Some(Err(e)) => {
                    return Err(e);
                },
                Some(Ok(rec)) => {
                    let ghost rv = record_view(rec);
                    out.push(rec);
                    proof {
                        assert(records_view(out@) =~= outv.push(rv));
                        if let Some(ms) = spec_records(self.rest()) {
                            assert(outv + (seq![rv] + ms) =~= outv.push(rv) + ms);
                        }
                    }
                },
            }
        }
    }
}

/// The BGP4MP peer/local header.
#[derive(Debug, Clone, Copy)]
pub struct Bgp4MpHeader {
    pub peer_as: u32,
    pub local_as: u32,
    pub interface: u16,
    pub peer_addr: IpAddress,
    pub local_addr: IpAddress,
}

/// The header as values.
pub struct HeaderModel {
    pub peer_as: u32,
    pub local_as: u32,
    pub interface: u16,
    pub peer_addr: IpModel,
    pub local_addr: IpModel,
}

impl View for Bgp4MpHeader {
    type V = HeaderModel;

    open spec fn view(&self) -> HeaderModel {
        HeaderModel {
            peer_as: self.peer_as,
            local_as: self.local_as,
            interface: self.interface,
            peer_addr: self.peer_addr@,
            local_addr: self.local_addr@,
        }
    }
}

/// Decodes the BGP4MP header at the front of `b` (AFI 2 reads IPv6
/// addresses, any other IPv4): the header and the bytes after it, or the
/// (needed, had) lengths of what was too short.
#[verifier::opaque]
pub open spec fn spec_bgp4mp_header(b: Seq<u8>) -> Result<(HeaderModel, Seq<u8>), (int, int)> {
    if b.len() < 12 {
        Err((12, b.len() as int))
    } else {
        let v6 = be16_at(b, 10) == 2;
        let al: int = if v6 { 16 } else { 4 };
        if b.len() - 12 < 2 * al {
            Err((2 * al, b.len() - 12))
        } else {
            Ok(
                (
                    HeaderModel {
                        peer_as: be32_at(b, 0) as u32,
                        local_as: be32_at(b, 4) as u32,
                        interface: be16_at(b, 8) as u16,
                        peer_addr: ip_at(b, 12, v6),
                        local_addr: ip_at(b, 12 + al, v6),
                    },
                    b.subrange(12 + 2 * al, b.len() as int),
                ),
            )
        }
    }
}

/// Decodes the common BGP4MP peer/local header of a record body; returns it
/// with the bytes that follow.
pub fn parse_bgp4mp_header(body: &[u8]) -> (r: Result<(Bgp4MpHeader, Vec<u8>), MrtError>)
    ensures
        match spec_bgp4mp_header(body@) {
            Ok((h, rest)) => r matches Ok((x, y)) && x@ == h && y@ == rest,
            Err((need, have)) => r matches Err(MrtError::TooShort { need: n, have: k }) && n == need && k
                == have,
        },
{
    reveal(spec_bgp4mp_header);
    if body.len() < 12 {
        return Err(MrtError::TooShort { need: 12, have: body.len() });
    }
    let peer_as = read_u32(body, 0);
    let local_as = read_u32(body, 4);
    let interface = read_u16(body, 8);
    let afi = read_u16(body, 10);
    let v6 = afi == 2;
    let addr_len: usize = if v6 { 16 } else { 4 };
    if body.len() - 12 < addr_len * 2 {
        return Err(MrtError::TooShort { need: addr_len * 2, have: body.len() - 12 });
    }
    let peer_addr = read_ip(body, 12, v6);
    let local_addr = read_ip(body, 12 + addr_len, v6);
    let start = 12 + 2 * addr_len;
    let rest = copy_range(body, start, body.len() - start);
    Ok((Bgp4MpHeader { peer_as, local_as, interface, peer_addr, local_addr }, rest))
}

/// Decodes a BGP4MP_MESSAGE(_AS4) body: the header and the BGP PDU bytes.
pub fn parse_bgp4mp_message(body: &[u8]) -> (r: Result<(Bgp4MpHeader, Vec<u8>), MrtError>)
    ensures
        match spec_bgp4mp_header(body@) {
            Ok((h, rest)) => r matches Ok((x, y)) && x@ == h && y@ == rest,
            Err((need, have)) => r matches Err(MrtError::TooShort { need: n, have: k }) && n == need && k
                == have,
        },
{
    parse_bgp4mp_header(body)
}

/// Decodes a BGP4MP_STATE_CHANGE(_AS4) body: the header, then the old and the
/// new state codes.
pub fn parse_bgp4mp_state_change(body: &[u8]) -> (r: Result<(Bgp4MpHeader, u16, u16), MrtError>)
    ensures
        match spec_bgp4mp_header(body@) {
            Err((need, have)) => r matches Err(MrtError::TooShort { need: n, have: k }) && n == need && k
                == have,
            Ok((h, rest)) => if rest.len() < 4 {
                r matches Err(MrtError::TooShort { need: n, have: k }) && n == 4 && k == rest.len()
            } else {
                r matches Ok((x, o, w)) && x@ == h && o == be16_at(rest, 0) && w == be16_at(rest, 2)
            },
        },
{
    let (hdr, rest) = match parse_bgp4mp_header(body) {
        Err(e) => {
            return Err(e);
        },
        Ok(x) => x,
    };
    if rest.len() < 4 {
        return Err(MrtError::TooShort { need: 4, have: rest.len() });
    }
    let old_state = read_u16(rest.as_slice(), 0);
    let new_state = read_u16(rest.as_slice(), 2);
    Ok((hdr, old_state, new_state))
}

} // verus!
