//! BGP OPEN decoding.

use vstd::prelude::*;
use crate::error::{Error, ErrorModel, eof};
use crate::wire::{be16_at, read_array4, read_u16};
use crate::bgp::types::{BgpCapability, CapabilityModel};
use crate::bgp::capabilities::{caps_view, parse_capabilities, spec_capabilities};
use crate::bmp::types::{BgpOpenInfo, OpenModel};

verus! {

/// Whether the first 16 bytes of `s` are all 0xFF.
pub open spec fn marker_ok(s: Seq<u8>) -> bool {
    forall|i: int| 0 <= i < 16 ==> s[i] == 0xFF
}

/// Checks the 16-byte BGP marker at the start of `buf`.
pub fn check_marker(buf: &[u8]) -> (r: bool)
    requires
        buf.len() >= 16,
    ensures
        r == marker_ok(buf@),
{
    let mut i: usize = 0;
    while i < 16
        invariant
            i <= 16 <= buf.len(),
            forall|j: int| 0 <= j < i ==> buf@[j] == 0xFF,
        decreases 16 - i,
    {
        if buf[i] != 0xFF {
            return false;
        }
        i = i + 1;
    }
    true
}

/// The first FourByteAsn capability's ASN, if any.
pub open spec fn four_byte_asn(caps: Seq<CapabilityModel>) -> Option<u32>
    decreases caps.len(),
{
    if caps.len() == 0 {
        None
    } else {
        match caps[0] {
            CapabilityModel::FourByteAsn(a) => Some(a),
            _ => four_byte_asn(caps.drop_first()),
        }
    }
}

/// The first 4-byte ASN capability's value in `caps`, if any.
pub fn find_four_byte_asn(caps: &Vec<BgpCapability>) -> (r: Option<u32>)
    ensures
        r == four_byte_asn(caps_view(caps@)),
{
    let ghost cv = caps_view(caps@);
    assert(cv.subrange(0, cv.len() as int) =~= cv);
    let mut i: usize = 0;
    while i < caps.len()
        invariant
            i <= caps@.len(),
            cv == caps_view(caps@),
            four_byte_asn(cv) == four_byte_asn(cv.subrange(i as int, cv.len() as int)),
        decreases caps@.len() - i,
    {
        assert(cv.subrange(i as int, cv.len() as int).drop_first() =~= cv.subrange(i + 1, cv.len() as int));
        match &caps[i] {
            BgpCapability::FourByteAsn(a) => {
                return Some(*a);
            },
            _ => {},
        }
        i = i + 1;
    }
    None
}

/// A BGP OPEN message starting at its common header: marker(16), length(2),
/// type(1) = 1, version(1), my AS(2), hold time(2), BGP id(4), optional
/// parameters length(1) and parameters. The ASN is the 4-byte ASN capability's
/// value when one is present.
pub open spec fn spec_open(s: Seq<u8>) -> Result<OpenModel, ErrorModel> {
    if !marker_ok(s) {
        Err(ErrorModel::InvalidBgpMarker)
    } else if s[18] != 1 {
        Err(ErrorModel::InvalidBgpMessageType(s[18]))
    } else {
        let b = s.skip(19);
        if b.len() < 10 {
            Err(eof(10, b.len() as int))
        } else {
            let opt_len = b[9] as int;
            let params = b.skip(10);
            if params.len() < opt_len {
                Err(eof(opt_len, params.len() as int))
            } else {
                match spec_capabilities(params.subrange(0, opt_len)) {
                    Err(e) => Err(e),
                    Ok(caps) => Ok(OpenModel {
                        version: b[0],
                        asn: match four_byte_asn(caps) {
                            Some(a) => a,
                            None => be16_at(b, 1) as u32,
                        },
                        hold_time: be16_at(b, 3) as u16,
                        bgp_id: b.subrange(5, 9),
                        capabilities: caps,
                    }),
                }
            }
        }
    }
}

/// Decodes a BGP OPEN message; `buf` starts at the 19-byte common header.
/// A buffer whose marker is wrong is refused once its 16 marker bytes are read.
pub fn parse_bgp_open(buf: &[u8]) -> (r: Result<BgpOpenInfo, Error>)
    requires
        buf.len() >= 16,
        buf.len() >= 19 || !marker_ok(buf@),
    ensures
        match r {
            Ok(o) => spec_open(buf@) == Ok::<OpenModel, ErrorModel>(o@),
            Err(e) => spec_open(buf@) == Err::<OpenModel, ErrorModel>(e@),
        },
{
    if !check_marker(buf) {
        return Err(Error::InvalidBgpMarker);
    }
    let msg_type = buf[18];
    if msg_type != 1 {
        return Err(Error::InvalidBgpMessageType(msg_type));
    }
    let ghost b = buf@.skip(19);
    if buf.len() - 19 < 10 {
        return Err(Error::UnexpectedEof { needed: 10, have: buf.len() - 19 });
    }
    let version = buf[19];
    let my_asn = read_u16(buf, 20) as u32;
    let hold_time = read_u16(buf, 22);
    let bgp_id = read_array4(buf, 24);
    let opt_len = buf[28] as usize;
    if buf.len() - 29 < opt_len {
        return Err(Error::UnexpectedEof { needed: opt_len, have: buf.len() - 29 });
    }
    let params = crate::wire::copy_range(buf, 29, opt_len);
    assert(params@ =~= b.skip(10).subrange(0, opt_len as int));
    let capabilities = match parse_capabilities(params.as_slice()) {
        Ok(c) => c,
        Err(e) => return Err(e),
    };
    let ghost cv = caps_view(capabilities@);
    let asn = match find_four_byte_asn(&capabilities) {
        Some(a) => a,
        None => my_asn,
    };
    assert(bgp_id@ =~= b.subrange(5, 9));
    let info = BgpOpenInfo { version, asn, hold_time, bgp_id, capabilities };
    assert(info@.capabilities == cv);
    Ok(info)
}

} // verus!
