//! MCAST-VPN NLRI (RFC 6514), route types 1 to 7.
//!
//!   1 Intra-AS I-PMSI A-D    2 Inter-AS I-PMSI A-D    3 S-PMSI A-D
//!   4 Leaf A-D               5 Source Active A-D      6 Shared Tree Join
//!   7 Source Tree Join

use vstd::prelude::*;
use vstd::string::StringExecFns;
use crate::error::{Error, ErrorModel};
use crate::net::{IpAddress, IpModel};
use crate::text::{dec, push_dec, push_text};
use crate::wire::{be32_at, copy_range, read_array4, read_array8, read_array16, read_u32};

verus! {

/// One MCAST-VPN route.
#[derive(Clone, Debug)]
pub enum MvpnNlri {
    /// Type 1; for an IPv4 originating router its address as a number.
    IntraAsIPmsi { rd: [u8; 8], origin_asn: u32 },
    /// Type 2.
    InterAsIPmsi { rd: [u8; 8], source_as: u32 },
    /// Type 3.
    SPmsi { rd: [u8; 8], multicast_source: IpAddress, multicast_group: IpAddress, origin_asn: u32 },
    /// Type 4.
    LeafAd { rd: [u8; 8], source_addr: IpAddress, multicast_group: IpAddress, originating_router: IpAddress },
    /// Type 5.
    SourceActive { rd: [u8; 8], multicast_source: IpAddress, multicast_group: IpAddress },
    /// Type 6.
    SharedTreeJoin { rd: [u8; 8], source_as: u32, rp_addr: IpAddress, multicast_group: IpAddress },
    /// Type 7.
    SourceTreeJoin { rd: [u8; 8], source_as: u32, multicast_source: IpAddress, multicast_group: IpAddress },
    /// Any other type, value kept.
    Unknown { route_type: u8, data: Vec<u8> },
}

/// Model of an MCAST-VPN route.
pub enum MvpnModel {
    IntraAsIPmsi { rd: Seq<u8>, origin_asn: u32 },
    InterAsIPmsi { rd: Seq<u8>, source_as: u32 },
    SPmsi { rd: Seq<u8>, multicast_source: IpModel, multicast_group: IpModel, origin_asn: u32 },
    LeafAd { rd: Seq<u8>, source_addr: IpModel, multicast_group: IpModel, originating_router: IpModel },
    SourceActive { rd: Seq<u8>, multicast_source: IpModel, multicast_group: IpModel },
    SharedTreeJoin { rd: Seq<u8>, source_as: u32, rp_addr: IpModel, multicast_group: IpModel },
    SourceTreeJoin { rd: Seq<u8>, source_as: u32, multicast_source: IpModel, multicast_group: IpModel },
    Unknown { route_type: u8, data: Seq<u8> },
}

impl View for MvpnNlri {
    type V = MvpnModel;

    open spec fn view(&self) -> MvpnModel {
        match self {
            MvpnNlri::IntraAsIPmsi { rd, origin_asn } => MvpnModel::IntraAsIPmsi { rd: rd@, origin_asn: *origin_asn },
            MvpnNlri::InterAsIPmsi { rd, source_as } => MvpnModel::InterAsIPmsi { rd: rd@, source_as: *source_as },
            MvpnNlri::SPmsi { rd, multicast_source, multicast_group, origin_asn } => MvpnModel::SPmsi {
                rd: rd@,
                multicast_source: multicast_source@,
                multicast_group: multicast_group@,
                origin_asn: *origin_asn,
            },
            MvpnNlri::LeafAd { rd, source_addr, multicast_group, originating_router } => MvpnModel::LeafAd {
                rd: rd@,
                source_addr: source_addr@,
                multicast_group: multicast_group@,
                originating_router: originating_router@,
            },
            MvpnNlri::SourceActive { rd, multicast_source, multicast_group } => MvpnModel::SourceActive {
                rd: rd@,
                multicast_source: multicast_source@,
                multicast_group: multicast_group@,
            },
            MvpnNlri::SharedTreeJoin { rd, source_as, rp_addr, multicast_group } => MvpnModel::SharedTreeJoin {
                rd: rd@,
                source_as: *source_as,
                rp_addr: rp_addr@,
                multicast_group: multicast_group@,
            },
            MvpnNlri::SourceTreeJoin { rd, source_as, multicast_source, multicast_group } => MvpnModel::SourceTreeJoin {
                rd: rd@,
                source_as: *source_as,
                multicast_source: multicast_source@,
                multicast_group: multicast_group@,
            },
            MvpnNlri::Unknown { route_type, data } => MvpnModel::Unknown { route_type: *route_type, data: data@ },
        }
    }
}

/// The RFC 6514 type code of a route model.
pub open spec fn mvpn_type_code(m: MvpnModel) -> u8 {
    match m {
        MvpnModel::IntraAsIPmsi { .. } => 1,
        MvpnModel::InterAsIPmsi { .. } => 2,
        MvpnModel::SPmsi { .. } => 3,
        MvpnModel::LeafAd { .. } => 4,
        MvpnModel::SourceActive { .. } => 5,
        MvpnModel::SharedTreeJoin { .. } => 6,
        MvpnModel::SourceTreeJoin { .. } => 7,
        MvpnModel::Unknown { route_type, .. } => route_type,
    }
}

/// The name of a route model's type.
pub open spec fn mvpn_type_name(m: MvpnModel) -> Seq<char> {
    match m {
        MvpnModel::IntraAsIPmsi { .. } => "Intra-AS I-PMSI A-D"@,
        MvpnModel::InterAsIPmsi { .. } => "Inter-AS I-PMSI A-D"@,
        MvpnModel::SPmsi { .. } => "S-PMSI A-D"@,
        MvpnModel::LeafAd { .. } => "Leaf A-D"@,
        MvpnModel::SourceActive { .. } => "Source Active A-D"@,
        MvpnModel::SharedTreeJoin { .. } => "Shared Tree Join"@,
        MvpnModel::SourceTreeJoin { .. } => "Source Tree Join"@,
        MvpnModel::Unknown { .. } => "Unknown"@,
    }
}

impl MvpnNlri {
    /// The RFC 6514 type code.
    pub fn route_type(&self) -> (r: u8)
        ensures
            r == mvpn_type_code(self@),
    {
        match self {
            MvpnNlri::IntraAsIPmsi { .. } => 1,
            MvpnNlri::InterAsIPmsi { .. } => 2,
            MvpnNlri::SPmsi { .. } => 3,
            MvpnNlri::LeafAd { .. } => 4,
            MvpnNlri::SourceActive { .. } => 5,
            MvpnNlri::SharedTreeJoin { .. } => 6,
            MvpnNlri::SourceTreeJoin { .. } => 7,
            MvpnNlri::Unknown { route_type, .. } => *route_type,
        }
    }

    /// The name of the route type.
    pub fn route_type_name(&self) -> (r: &'static str)
        ensures
            r@ == mvpn_type_name(self@),
    {
        match self {
            MvpnNlri::IntraAsIPmsi { .. } => "Intra-AS I-PMSI A-D",
            MvpnNlri::InterAsIPmsi { .. } => "Inter-AS I-PMSI A-D",
            MvpnNlri::SPmsi { .. } => "S-PMSI A-D",
            MvpnNlri::LeafAd { .. } => "Leaf A-D",
            MvpnNlri::SourceActive { .. } => "Source Active A-D",
            MvpnNlri::SharedTreeJoin { .. } => "Shared Tree Join",
            MvpnNlri::SourceTreeJoin { .. } => "Source Tree Join",
            MvpnNlri::Unknown { .. } => "Unknown",
        }
    }
}

// ─── Field readers ───────────────────────────────────────────────────────────

pub open spec fn mv_err(m: Seq<char>) -> ErrorModel {
    ErrorModel::BgpParse(m)
}

/// The IPv4 address at `i`, or the truncation error.
pub open spec fn spec_ipv4_at(d: Seq<u8>, i: int) -> Result<IpModel, ErrorModel> {
    if i + 4 <= d.len() {
        Ok(IpModel::V4(d.subrange(i, i + 4)))
    } else {
        Err(mv_err("MVPN: truncated IPv4"@))
    }
}

/// The IPv6 address at `i`, or the truncation error.
pub open spec fn spec_ipv6_at(d: Seq<u8>, i: int) -> Result<IpModel, ErrorModel> {
    if i + 16 <= d.len() {
        Ok(IpModel::V6(d.subrange(i, i + 16)))
    } else {
        Err(mv_err("MVPN: truncated IPv6"@))
    }
}

/// An address of `len_bytes` octets (16 reads IPv6, anything else IPv4).
pub open spec fn spec_addr_at(d: Seq<u8>, i: int, len_bytes: int) -> Result<IpModel, ErrorModel> {
    if len_bytes == 16 {
        spec_ipv6_at(d, i)
    } else {
        spec_ipv4_at(d, i)
    }
}

/// The unspecified IPv4 address.
pub open spec fn zero_v4() -> IpModel {
    IpModel::V4(seq![0u8, 0u8, 0u8, 0u8])
}

/// The IPv4 address at `i`, or 0.0.0.0 when the value is shorter than `need`.
pub open spec fn v4_if_long(d: Seq<u8>, need: int, i: int) -> IpModel {
    if d.len() >= need {
        IpModel::V4(d.subrange(i, i + 4))
    } else {
        zero_v4()
    }
}

fn bgp_err(m: &str) -> (r: Error)
    ensures
        r@ == mv_err(m@),
{
    Error::BgpParse(String::from_str(m))
}

fn read_ipv4_at(d: &[u8], pos: usize) -> (r: Result<IpAddress, Error>)
    ensures
        match r {
            Ok(a) => spec_ipv4_at(d@, pos as int) == Ok::<IpModel, ErrorModel>(a@),
            Err(e) => spec_ipv4_at(d@, pos as int) == Err::<IpModel, ErrorModel>(e@),
        },
{
    if pos > d.len() || d.len() - pos < 4 {
        return Err(bgp_err("MVPN: truncated IPv4"));
    }
    Ok(IpAddress::V4(read_array4(d, pos)))
}

fn read_addr_at(d: &[u8], pos: usize, len_bytes: usize) -> (r: Result<IpAddress, Error>)
    ensures
        match r {
            Ok(a) => spec_addr_at(d@, pos as int, len_bytes as int) == Ok::<IpModel, ErrorModel>(a@),
            Err(e) => spec_addr_at(d@, pos as int, len_bytes as int) == Err::<IpModel, ErrorModel>(e@),
        },
{
    if len_bytes == 16 {
        if pos > d.len() || d.len() - pos < 16 {
            return Err(bgp_err("MVPN: truncated IPv6"));
        }
        Ok(IpAddress::V6(read_array16(d, pos)))
    } else {
        read_ipv4_at(d, pos)
    }
}

fn v4_or_zero(d: &[u8], need: usize, pos: usize) -> (r: IpAddress)
    requires
        need >= pos + 4,
    ensures
        r@ == v4_if_long(d@, need as int, pos as int),
{
    if d.len() >= need {
        IpAddress::V4(read_array4(d, pos))
    } else {
        IpAddress::v4_unspecified()
    }
}

// ─── Route values ────────────────────────────────────────────────────────────

/// Whether reading the group length of an S-PMSI value `d` indexes past its
/// end (the source address was read, and ends at or beyond the last byte).
pub open spec fn spmsi_panics(d: Seq<u8>) -> bool {
    d.len() >= 10 && spec_addr_at(d, 9, (d[8] / 8) as int) is Ok && 9 + d[8] / 8 >= d.len()
}

/// Decodes the value `d` of a route of type `t`.
pub open spec fn spec_mvpn_route(t: u8, d: Seq<u8>) -> Result<MvpnModel, ErrorModel> {
    let rd = d.subrange(0, 8);
    if t == 1 {
        if d.len() < 12 {
            Err(mv_err("MVPN type-1: too short"@))
        } else if d.len() - 8 == 16 {
            Ok(MvpnModel::IntraAsIPmsi { rd, origin_asn: 0 })
        } else {
            Ok(MvpnModel::IntraAsIPmsi { rd, origin_asn: be32_at(d, 8) as u32 })
        }
    } else if t == 2 {
        if d.len() < 12 {
            Err(mv_err("MVPN type-2: too short"@))
        } else {
            Ok(MvpnModel::InterAsIPmsi { rd, source_as: be32_at(d, 8) as u32 })
        }
    } else if t == 3 {
        if d.len() < 10 {
            Err(mv_err("MVPN type-3: too short"@))
        } else {
            let s = (d[8] / 8) as int;
            match spec_addr_at(d, 9, s) {
                Err(e) => Err(e),
                Ok(src) => {
                    let g = (d[9 + s] / 8) as int;
                    match spec_addr_at(d, 10 + s, g) {
                        Err(e) => Err(e),
                        Ok(grp) => Ok(
                            MvpnModel::SPmsi { rd, multicast_source: src, multicast_group: grp, origin_asn: 0 },
                        ),
                    }
                },
            }
        }
    } else if t == 4 {
        if d.len() < 8 {
            Err(mv_err("MVPN type-4: too short"@))
        } else {
            Ok(
                MvpnModel::LeafAd {
                    rd,
                    source_addr: v4_if_long(d, 24, 8),
                    multicast_group: v4_if_long(d, 28, 12),
                    originating_router: v4_if_long(d, 32, 28),
                },
            )
        }
    } else if t == 5 {
        if d.len() < 10 {
            Err(mv_err("MVPN type-5: too short"@))
        } else {
            let s = (d[8] / 8) as int;
            match spec_addr_at(d, 9, s) {
                Err(e) => Err(e),
                Ok(src) => {
                    let g = if 9 + s < d.len() { (d[9 + s] / 8) as int } else { 4 };
                    match spec_addr_at(d, 10 + s, g) {
                        Err(e) => Err(e),
                        Ok(grp) => Ok(MvpnModel::SourceActive { rd, multicast_source: src, multicast_group: grp }),
                    }
                },
            }
        }
    } else if t == 6 {
        if d.len() < 17 {
            Err(mv_err("MVPN type-6: too short"@))
        } else if d.len() < 20 {
            Err(mv_err("MVPN: truncated IPv4"@))
        } else {
            Ok(
                MvpnModel::SharedTreeJoin {
                    rd,
                    source_as: be32_at(d, 8) as u32,
                    rp_addr: IpModel::V4(d.subrange(12, 16)),
                    multicast_group: IpModel::V4(d.subrange(16, 20)),
                },
            )
        }
    } else if t == 7 {
        if d.len() < 20 {
            Err(mv_err("MVPN type-7: too short"@))
        } else {
            Ok(
                MvpnModel::SourceTreeJoin {
                    rd,
                    source_as: be32_at(d, 8) as u32,
                    multicast_source: IpModel::V4(d.subrange(12, 16)),
                    multicast_group: IpModel::V4(d.subrange(16, 20)),
                },
            )
        }
    } else {
        Ok(MvpnModel::Unknown { route_type: t, data: d })
    }
}

pub open spec fn route_res(r: Result<MvpnNlri, Error>) -> Result<MvpnModel, ErrorModel> {
    match r {
        Ok(v) => Ok(v@),
        Err(e) => Err(e@),
    }
}

/// Decodes the value of one route of type `t` (its type and length bytes
/// already read).
fn parse_route_value(t: u8, d: &[u8]) -> (r: Result<MvpnNlri, Error>)
    requires
        !(t == 3 && spmsi_panics(d@)),
    ensures
        route_res(r) == spec_mvpn_route(t, d@),
{
    let n = d.len();
    if t == 1 {
        if n < 12 {
            return Err(bgp_err("MVPN type-1: too short"));
        }
        let rd = read_array8(d, 0);
        if n - 8 == 16 {
            Ok(MvpnNlri::IntraAsIPmsi { rd, origin_asn: 0 })
        } else {
            Ok(MvpnNlri::IntraAsIPmsi { rd, origin_asn: read_u32(d, 8) })
        }
    } else if t == 2 {
        if n < 12 {
            return Err(bgp_err("MVPN type-2: too short"));
        }
        Ok(MvpnNlri::InterAsIPmsi { rd: read_array8(d, 0), source_as: read_u32(d, 8) })
    } else if t == 3 {
        if n < 10 {
            return Err(bgp_err("MVPN type-3: too short"));
        }
        let rd = read_array8(d, 0);
        let s = (d[8] / 8) as usize;
        let src = match read_addr_at(d, 9, s) {
            Err(e) => {
                return Err(e);
            },
            Ok(a) => a,
        };
        let g = (d[9 + s] / 8) as usize;
        let grp = match read_addr_at(d, 10 + s, g) {
            Err(e) => {
                return Err(e);
            },
            Ok(a) => a,
        };
        Ok(MvpnNlri::SPmsi { rd, multicast_source: src, multicast_group: grp, origin_asn: 0 })
    } else if t == 4 {
        if n < 8 {
            return Err(bgp_err("MVPN type-4: too short"));
        }
        Ok(
            MvpnNlri::LeafAd {
                rd: read_array8(d, 0),
                source_addr: v4_or_zero(d, 24, 8),
                multicast_group: v4_or_zero(d, 28, 12),
                originating_router: v4_or_zero(d, 32, 28),
            },
        )
    } else if t == 5 {
        if n < 10 {
            return Err(bgp_err("MVPN type-5: too short"));
        }
        let rd = read_array8(d, 0);
        let s = (d[8] / 8) as usize;
        let src = match read_addr_at(d, 9, s) {
            Err(e) => {
                return Err(e);
            },
            Ok(a) => a,
        };
        let g: usize = if 9 + s < n { (d[9 + s] / 8) as usize } else { 4 };
        let grp = match read_addr_at(d, 10 + s, g) {
            Err(e) => {
                return Err(e);
            },
            Ok(a) => a,
        };
        Ok(MvpnNlri::SourceActive { rd, multicast_source: src, multicast_group: grp })
    } else if t == 6 {
        if n < 17 {
            return Err(bgp_err("MVPN type-6: too short"));
        }
        if n < 20 {
            return Err(bgp_err("MVPN: truncated IPv4"));
        }
        Ok(
            MvpnNlri::SharedTreeJoin {
                rd: read_array8(d, 0),
                source_as: read_u32(d, 8),
                rp_addr: IpAddress::V4(read_array4(d, 12)),
                multicast_group: IpAddress::V4(read_array4(d, 16)),
            },
        )
    } else if t == 7 {
        if n < 20 {
            return Err(bgp_err("MVPN type-7: too short"));
        }
        Ok(
            MvpnNlri::SourceTreeJoin {
                rd: read_array8(d, 0),
                source_as: read_u32(d, 8),
                multicast_source: IpAddress::V4(read_array4(d, 12)),
                multicast_group: IpAddress::V4(read_array4(d, 16)),
            },
        )
    } else {
        let data = copy_range(d, 0, n);
        assert(data@ =~= d@);
        Ok(MvpnNlri::Unknown { route_type: t, data })
    }
}

// ─── Framing ─────────────────────────────────────────────────────────────────

/// The error for a route whose length byte exceeds what remains.
pub open spec fn claims_text(t: u8, n: u8, have: nat) -> Seq<char> {
    "MVPN NLRI type="@ + dec(t as nat) + " claims "@ + dec(n as nat) + " bytes but only "@ + dec(have)
        + " remain"@
}

/// Whether decoding the route at the front of `b` would index past the end.
pub open spec fn mvpn_panics(b: Seq<u8>) -> bool {
    b.len() >= 2 && b.len() >= 2 + b[1] && b[0] == 3 && spmsi_panics(b.subrange(2, 2 + b[1] as int))
}

/// Decodes the route at the front of `b`, with the bytes it spans.
pub open spec fn spec_mvpn_nlri(b: Seq<u8>) -> Result<(MvpnModel, int), ErrorModel> {
    if b.len() < 2 {
        Err(mv_err("MVPN NLRI too short"@))
    } else if b.len() < 2 + b[1] {
        Err(mv_err(claims_text(b[0], b[1], (b.len() - 2) as nat)))
    } else {
        match spec_mvpn_route(b[0], b.subrange(2, 2 + b[1] as int)) {
            Err(e) => Err(e),
            Ok(m) => Ok((m, 2 + b[1] as int)),
        }
    }
}

/// Decodes one MCAST-VPN route from the front of `buf`; returns it with the
/// number of bytes it spans.
pub fn parse_mvpn_nlri(buf: &[u8]) -> (r: Result<(MvpnNlri, usize), Error>)
    requires
        !mvpn_panics(buf@),
    ensures
        match r {
            Ok((m, c)) => spec_mvpn_nlri(buf@) == Ok::<(MvpnModel, int), ErrorModel>((m@, c as int)),
            Err(e) => spec_mvpn_nlri(buf@) == Err::<(MvpnModel, int), ErrorModel>(e@),
        },
{
    if buf.len() < 2 {
        return Err(bgp_err("MVPN NLRI too short"));
    }
    let t = buf[0];
    let n = buf[1] as usize;
    if buf.len() - 2 < n {
        let mut m = String::new();
        push_text(&mut m, "MVPN NLRI type=");
        push_dec(&mut m, t as u64);
        push_text(&mut m, " claims ");
        push_dec(&mut m, n as u64);
        push_text(&mut m, " bytes but only ");
        push_dec(&mut m, (buf.len() - 2) as u64);
        push_text(&mut m, " remain");
        return Err(Error::BgpParse(m));
    }
    let data = copy_range(buf, 2, n);
    assert(data@ =~= buf@.subrange(2, 2 + buf@[1] as int));
    match parse_route_value(t, data.as_slice()) {
        Err(e) => Err(e),
        Ok(m) => Ok((m, 2 + n)),
    }
}

/// The routes decoded from the front of `b` up to the first that fails;
/// `None` where decoding one would index past the end.
pub open spec fn spec_mvpn_list(b: Seq<u8>) -> Option<Seq<MvpnModel>>
    decreases b.len(),
{
    if b.len() == 0 {
        Some(Seq::empty())
    } else if mvpn_panics(b) {
        None
    } else {
        match spec_mvpn_nlri(b) {
            Err(_) => Some(Seq::empty()),
            Ok((m, c)) => if 2 <= c <= b.len() {
                match spec_mvpn_list(b.skip(c)) {
                    Some(rest) => Some(seq![m] + rest),
                    None => None,
                }
            } else {
                None
            },
        }
    }
}

pub open spec fn mvpn_views(v: Seq<MvpnNlri>) -> Seq<MvpnModel> {
    v.map_values(|m: MvpnNlri| m@)
}

/// Decodes the MCAST-VPN routes of an MP_REACH or MP_UNREACH value, up to
/// the first that fails to decode.
pub fn parse_mvpn_nlri_list(buf: &[u8]) -> (r: Vec<MvpnNlri>)
    requires
        spec_mvpn_list(buf@) is Some,
    ensures
        spec_mvpn_list(buf@) == Some(mvpn_views(r@)),
{
    let mut pos: usize = 0;
    let mut result: Vec<MvpnNlri> = Vec::new();
    proof {
        assert(buf@.skip(0) =~= buf@);
    }
    while pos < buf.len()
        invariant
            pos <= buf.len(),
            spec_mvpn_list(buf@.skip(pos as int)) is Some,
            spec_mvpn_list(buf@) == Some(
                mvpn_views(result@) + spec_mvpn_list(buf@.skip(pos as int)).unwrap(),
            ),
        decreases buf.len() - pos,
    {
        let ghost rest = buf@.skip(pos as int);
        let tail = copy_range(buf, pos, buf.len() - pos);
        assert(tail@ =~= rest);
        match parse_mvpn_nlri(tail.as_slice()) {
            Err(_) => {
                proof {
                    assert(spec_mvpn_list(rest) == Some(Seq::<MvpnModel>::empty()));
                    assert(mvpn_views(result@) + Seq::<MvpnModel>::empty() =~= mvpn_views(result@));
                    assert(buf@.skip(buf.len() as int) =~= Seq::<u8>::empty());
                }
                let ghost before = mvpn_views(result@);
                assert(spec_mvpn_list(buf@) == Some(before));
                return result;
            },
            Ok((m, consumed)) => {
                let ghost before = mvpn_views(result@);
                let ghost mv = m@;
                proof {
                    assert(rest.skip(consumed as int) =~= buf@.skip(pos + consumed));
                    let later = spec_mvpn_list(buf@.skip(pos + consumed));
                    assert(before + (seq![mv] + later.unwrap()) =~= before.push(mv) + later.unwrap());
                }
                result.push(m);
                assert(mvpn_views(result@) =~= before.push(mv));
                pos = pos + consumed;
            },
        }
    }
    proof {
        assert(buf@.skip(pos as int) =~= Seq::<u8>::empty());
        assert(mvpn_views(result@) + Seq::<MvpnModel>::empty() =~= mvpn_views(result@));
    }
    result
}

} // verus!
