//! The path attributes of an UPDATE (RFC 4271 section 4.3 and extensions):
//! attribute records decoded one after another into [`PathAttributes`].

use vstd::prelude::*;
use vstd::string::StringExecFns;
use crate::error::{Error, ErrorModel, eof};
use crate::net::{IpAddress, IpModel};
use crate::text::{dec, push_dec};
use crate::wire::{be16_at, be32_at, read_u16, read_u32, read_array4, read_array8, copy_range};
use crate::bgp::types::{
    AsPath, SegmentModel, Origin, StandardCommunity, ExtendedCommunity, LargeCommunity, PrefixSid,
    PrefixSidModel,
};
use crate::bgp::attributes::{
    parse_as_path, spec_parse_as_path, TunnelEncapEntry, TunnelModel, parse_tunnel_encap, spec_tunnel_encap,
    tunnels_view, BgpsecPath, BgpsecModel, parse_bgpsec_path, spec_signing_asns, spec_sig_block_count,
};
use crate::bgp::srv6::{parse_prefix_sid, spec_prefix_sid};
use crate::bgp::bgpls::{BgpLsAttribute, BgpLsAttrModel, parse_bgpls_attribute, spec_bgpls_attribute, spec_words};
use crate::bgp::evpn::{EvpnModel, routes_view};
use crate::bgp::flowspec::{FlowspecNlri, FlowspecNlriModel, nlris_view};
use crate::bgp::bgpls::{BgpLsReachNlri, BgpLsUnreachNlri, LsNlriModel, ls_nlris_view};
use crate::bgp::srpolicy::{
    SrPolicyNlri, SrPolicyModel, RtcNlri, RtcModel, CandidatePath, CandidatePathModel, policies_view, rtcs_view,
    candidates_model,
};
use crate::bgp::mp::{
    MpReachNlri, MpUnreachNlri, MpReachModel, MpUnreachModel, EvpnReachNlri, EvpnUnreachNlri, ReachModel,
    UnreachModel, parse_mp_reach, parse_mp_unreach, spec_mp_reach, spec_mp_unreach, reach_view, unreach_view,
    ips_view,
};

verus! {

/// A path attribute kept undecoded.
#[derive(Clone, Debug)]
pub struct RawAttribute {
    pub flags: u8,
    pub type_code: u8,
    pub value: Vec<u8>,
}

/// The decoded path attributes of an UPDATE.
#[derive(Debug)]
pub struct PathAttributes {
    pub origin: Option<Origin>,
    pub as_path: Option<AsPath>,
    pub next_hop: Option<IpAddress>,
    pub multi_exit_disc: Option<u32>,
    pub local_pref: Option<u32>,
    pub atomic_aggregate: bool,
    pub aggregator: Option<(u32, [u8; 4])>,
    pub communities: Vec<StandardCommunity>,
    pub extended_communities: Vec<ExtendedCommunity>,
    pub large_communities: Vec<LargeCommunity>,
    pub originator_id: Option<[u8; 4]>,
    pub cluster_list: Vec<[u8; 4]>,
    pub mp_reach: Option<MpReachNlri>,
    pub mp_unreach: Option<MpUnreachNlri>,
    pub as4_path: Option<AsPath>,
    pub as4_aggregator: Option<(u32, [u8; 4])>,
    pub evpn_reach: Option<EvpnReachNlri>,
    pub evpn_unreach: Option<EvpnUnreachNlri>,
    pub flowspec_reach: Option<Vec<FlowspecNlri>>,
    pub flowspec_unreach: Option<Vec<FlowspecNlri>>,
    pub prefix_sid: Option<PrefixSid>,
    pub tunnel_encap: Option<Vec<TunnelEncapEntry>>,
    pub only_to_customer: Option<u32>,
    pub bgpls_reach: Option<BgpLsReachNlri>,
    pub bgpls_unreach: Option<BgpLsUnreachNlri>,
    pub bgpls_attr: Option<BgpLsAttribute>,
    pub sr_policy_nlris: Vec<SrPolicyNlri>,
    pub sr_policy_paths: Vec<CandidatePath>,
    pub rtc_nlris: Vec<RtcNlri>,
    pub bgpsec_path: Option<BgpsecPath>,
    pub unknown: Vec<RawAttribute>,
}

/// Model of [`PathAttributes`].
pub struct AttrsModel {
    pub origin: Option<Origin>,
    pub as_path: Option<Seq<SegmentModel>>,
    pub next_hop: Option<IpModel>,
    pub multi_exit_disc: Option<u32>,
    pub local_pref: Option<u32>,
    pub atomic_aggregate: bool,
    pub aggregator: Option<(u32, Seq<u8>)>,
    pub communities: Seq<StandardCommunity>,
    pub extended_communities: Seq<(u8, u8, Seq<u8>)>,
    pub large_communities: Seq<LargeCommunity>,
    pub originator_id: Option<Seq<u8>>,
    pub cluster_list: Seq<Seq<u8>>,
    pub mp_reach: Option<MpReachModel>,
    pub mp_unreach: Option<MpUnreachModel>,
    pub as4_path: Option<Seq<SegmentModel>>,
    pub as4_aggregator: Option<(u32, Seq<u8>)>,
    pub evpn_reach: Option<(Seq<IpModel>, Seq<EvpnModel>)>,
    pub evpn_unreach: Option<Seq<EvpnModel>>,
    pub flowspec_reach: Option<Seq<FlowspecNlriModel>>,
    pub flowspec_unreach: Option<Seq<FlowspecNlriModel>>,
    pub prefix_sid: Option<PrefixSidModel>,
    pub tunnel_encap: Option<Seq<TunnelModel>>,
    pub only_to_customer: Option<u32>,
    pub bgpls_reach: Option<(Option<IpModel>, Seq<LsNlriModel>)>,
    pub bgpls_unreach: Option<Seq<LsNlriModel>>,
    pub bgpls_attr: Option<BgpLsAttrModel>,
    pub sr_policy_nlris: Seq<SrPolicyModel>,
    pub sr_policy_paths: Seq<CandidatePathModel>,
    pub rtc_nlris: Seq<RtcModel>,
    pub bgpsec_path: Option<BgpsecModel>,
    pub unknown: Seq<(u8, u8, Seq<u8>)>,
}

pub open spec fn ext_model(c: ExtendedCommunity) -> (u8, u8, Seq<u8>) {
    (c.type_high, c.type_low, c.value@)
}

pub open spec fn exts_view(v: Seq<ExtendedCommunity>) -> Seq<(u8, u8, Seq<u8>)> {
    v.map_values(|c: ExtendedCommunity| ext_model(c))
}

pub open spec fn quads_view(v: Seq<[u8; 4]>) -> Seq<Seq<u8>> {
    v.map_values(|a: [u8; 4]| a@)
}

pub open spec fn raws_view(v: Seq<RawAttribute>) -> Seq<(u8, u8, Seq<u8>)> {
    v.map_values(|r: RawAttribute| (r.flags, r.type_code, r.value@))
}

pub open spec fn agg_model(a: Option<(u32, [u8; 4])>) -> Option<(u32, Seq<u8>)> {
    match a {
        Some((asn, id)) => Some((asn, id@)),
        None => None,
    }
}

// Views of the attribute fields, kept opaque so that a change of one field
// leaves the others' views untouched in proofs.

#[verifier::opaque]
pub open spec fn vw_as_path(x: Option<AsPath>) -> Option<Seq<SegmentModel>> {
    match x {
        Some(p) => Some(p@),
        None => None,
    }
}

#[verifier::opaque]
pub open spec fn vw_next_hop(x: Option<IpAddress>) -> Option<IpModel> {
    match x {
        Some(a) => Some(a@),
        None => None,
    }
}

#[verifier::opaque]
pub open spec fn vw_aggregator(x: Option<(u32, [u8; 4])>) -> Option<(u32, Seq<u8>)> {
    agg_model(x)
}

#[verifier::opaque]
pub open spec fn vw_extended_communities(x: Vec<ExtendedCommunity>) -> Seq<(u8, u8, Seq<u8>)> {
    exts_view(x@)
}

#[verifier::opaque]
pub open spec fn vw_originator_id(x: Option<[u8; 4]>) -> Option<Seq<u8>> {
    match x {
        Some(a) => Some(a@),
        None => None,
    }
}

#[verifier::opaque]
pub open spec fn vw_cluster_list(x: Vec<[u8; 4]>) -> Seq<Seq<u8>> {
    quads_view(x@)
}

#[verifier::opaque]
pub open spec fn vw_mp_reach(x: Option<MpReachNlri>) -> Option<MpReachModel> {
    match x {
        Some(m) => Some(m@),
        None => None,
    }
}

#[verifier::opaque]
pub open spec fn vw_mp_unreach(x: Option<MpUnreachNlri>) -> Option<MpUnreachModel> {
    match x {
        Some(m) => Some(m@),
        None => None,
    }
}

#[verifier::opaque]
pub open spec fn vw_evpn_reach(x: Option<EvpnReachNlri>) -> Option<(Seq<IpModel>, Seq<EvpnModel>)> {
    match x {
        Some(e) => Some((ips_view(e.next_hops@), routes_view(e.routes@))),
        None => None,
    }
}

#[verifier::opaque]
pub open spec fn vw_evpn_unreach(x: Option<EvpnUnreachNlri>) -> Option<Seq<EvpnModel>> {
    match x {
        Some(e) => Some(routes_view(e.routes@)),
        None => None,
    }
}

#[verifier::opaque]
pub open spec fn vw_flowspec(x: Option<Vec<FlowspecNlri>>) -> Option<Seq<FlowspecNlriModel>> {
    match x {
        Some(f) => Some(nlris_view(f@)),
        None => None,
    }
}

#[verifier::opaque]
pub open spec fn vw_prefix_sid(x: Option<PrefixSid>) -> Option<PrefixSidModel> {
    match x {
        Some(p) => Some(p@),
        None => None,
    }
}

#[verifier::opaque]
pub open spec fn vw_tunnel_encap(x: Option<Vec<TunnelEncapEntry>>) -> Option<Seq<TunnelModel>> {
    match x {
        Some(t) => Some(tunnels_view(t@)),
        None => None,
    }
}

#[verifier::opaque]
pub open spec fn vw_bgpls_reach(x: Option<BgpLsReachNlri>) -> Option<(Option<IpModel>, Seq<LsNlriModel>)> {
    match x {
        Some(l) => Some(
            (
                match l.next_hop {
                    Some(a) => Some(a@),
                    None => None,
                },
                ls_nlris_view(l.nlris@),
            ),
        ),
        None => None,
    }
}

#[verifier::opaque]
pub open spec fn vw_bgpls_unreach(x: Option<BgpLsUnreachNlri>) -> Option<Seq<LsNlriModel>> {
    match x {
        Some(l) => Some(ls_nlris_view(l.nlris@)),
        None => None,
    }
}

#[verifier::opaque]
pub open spec fn vw_bgpls_attr(x: Option<BgpLsAttribute>) -> Option<BgpLsAttrModel> {
    match x {
        Some(a) => Some(a@),
        None => None,
    }
}

#[verifier::opaque]
pub open spec fn vw_sr_policy_nlris(x: Vec<SrPolicyNlri>) -> Seq<SrPolicyModel> {
    policies_view(x@)
}

#[verifier::opaque]
pub open spec fn vw_sr_policy_paths(x: Vec<CandidatePath>) -> Seq<CandidatePathModel> {
    candidates_model(x@)
}

#[verifier::opaque]
pub open spec fn vw_rtc_nlris(x: Vec<RtcNlri>) -> Seq<RtcModel> {
    rtcs_view(x@)
}

#[verifier::opaque]
pub open spec fn vw_bgpsec_path(x: Option<BgpsecPath>) -> Option<BgpsecModel> {
    match x {
        Some(b) => Some(b@),
        None => None,
    }
}

#[verifier::opaque]
pub open spec fn vw_unknown(x: Vec<RawAttribute>) -> Seq<(u8, u8, Seq<u8>)> {
    raws_view(x@)
}

impl View for PathAttributes {
    type V = AttrsModel;

    open spec fn view(&self) -> AttrsModel {
        AttrsModel {
            origin: self.origin,
            as_path: vw_as_path(self.as_path),
            next_hop: vw_next_hop(self.next_hop),
            multi_exit_disc: self.multi_exit_disc,
            local_pref: self.local_pref,
            atomic_aggregate: self.atomic_aggregate,
            aggregator: vw_aggregator(self.aggregator),
            communities: self.communities@,
            extended_communities: vw_extended_communities(self.extended_communities),
            large_communities: self.large_communities@,
            originator_id: vw_originator_id(self.originator_id),
            cluster_list: vw_cluster_list(self.cluster_list),
            mp_reach: vw_mp_reach(self.mp_reach),
            mp_unreach: vw_mp_unreach(self.mp_unreach),
            as4_path: vw_as_path(self.as4_path),
            as4_aggregator: vw_aggregator(self.as4_aggregator),
            evpn_reach: vw_evpn_reach(self.evpn_reach),
            evpn_unreach: vw_evpn_unreach(self.evpn_unreach),
            flowspec_reach: vw_flowspec(self.flowspec_reach),
            flowspec_unreach: vw_flowspec(self.flowspec_unreach),
            prefix_sid: vw_prefix_sid(self.prefix_sid),
            tunnel_encap: vw_tunnel_encap(self.tunnel_encap),
            only_to_customer: self.only_to_customer,
            bgpls_reach: vw_bgpls_reach(self.bgpls_reach),
            bgpls_unreach: vw_bgpls_unreach(self.bgpls_unreach),
            bgpls_attr: vw_bgpls_attr(self.bgpls_attr),
            sr_policy_nlris: vw_sr_policy_nlris(self.sr_policy_nlris),
            sr_policy_paths: vw_sr_policy_paths(self.sr_policy_paths),
            rtc_nlris: vw_rtc_nlris(self.rtc_nlris),
            bgpsec_path: vw_bgpsec_path(self.bgpsec_path),
            unknown: vw_unknown(self.unknown),
        }
    }
}

/// No attribute decoded.
pub open spec fn empty_attrs() -> AttrsModel {
    AttrsModel {
        origin: None,
        as_path: None,
        next_hop: None,
        multi_exit_disc: None,
        local_pref: None,
        atomic_aggregate: false,
        aggregator: None,
        communities: Seq::empty(),
        extended_communities: Seq::empty(),
        large_communities: Seq::empty(),
        originator_id: None,
        cluster_list: Seq::empty(),
        mp_reach: None,
        mp_unreach: None,
        as4_path: None,
        as4_aggregator: None,
        evpn_reach: None,
        evpn_unreach: None,
        flowspec_reach: None,
        flowspec_unreach: None,
        prefix_sid: None,
        tunnel_encap: None,
        only_to_customer: None,
        bgpls_reach: None,
        bgpls_unreach: None,
        bgpls_attr: None,
        sr_policy_nlris: Seq::empty(),
        sr_policy_paths: Seq::empty(),
        rtc_nlris: Seq::empty(),
        bgpsec_path: None,
        unknown: Seq::empty(),
    }
}

/// The ORIGIN attribute of a value byte.
pub open spec fn spec_origin(v: u8) -> Result<Origin, ErrorModel> {
    if v == 0 {
        Ok(Origin::Igp)
    } else if v == 1 {
        Ok(Origin::Egp)
    } else if v == 2 {
        Ok(Origin::Incomplete)
    } else {
        Err(ErrorModel::BgpParse("invalid ORIGIN value "@ + dec(v as nat)))
    }
}

/// The 4-byte chunks of `d` (a trailing partial chunk is ignored).
pub open spec fn quads(d: Seq<u8>) -> Seq<Seq<u8>> {
    Seq::new(d.len() / 4, |k: int| d.subrange(4 * k, 4 * k + 4))
}

/// Extended communities of `d`: 8-byte chunks.
pub open spec fn ext_communities(d: Seq<u8>) -> Seq<(u8, u8, Seq<u8>)> {
    Seq::new(d.len() / 8, |k: int| (d[8 * k], d[8 * k + 1], d.subrange(8 * k + 2, 8 * k + 8)))
}

/// Large communities of `d`: 12-byte chunks of three 32-bit values.
pub open spec fn large_communities(d: Seq<u8>) -> Seq<LargeCommunity> {
    Seq::new(
        d.len() / 12,
        |k: int|
            LargeCommunity {
                global_admin: be32_at(d, 12 * k) as u32,
                local_data_1: be32_at(d, 12 * k + 4) as u32,
                local_data_2: be32_at(d, 12 * k + 8) as u32,
            },
    )
}

/// An attribute kept raw.
pub open spec fn step_unknown(a: AttrsModel, flags: u8, t: u8, d: Seq<u8>) -> AttrsModel {
    AttrsModel { unknown: a.unknown.push((flags, t, d)), ..a }
}

/// ORIGIN, AS_PATH, NEXT_HOP, MED, LOCAL_PREF, ATOMIC_AGGREGATE, AGGREGATOR.
pub open spec fn step_basic(a: AttrsModel, flags: u8, t: u8, d: Seq<u8>) -> Result<AttrsModel, ErrorModel> {
    let n = d.len();
    if t == 1 && n >= 1 {
        match spec_origin(d[0]) {
            Ok(o) => Ok(AttrsModel { origin: Some(o), ..a }),
            Err(e) => Err(e),
        }
    } else if t == 2 {
        match spec_parse_as_path(d, false) {
            Ok(p) => Ok(AttrsModel { as_path: Some(p), ..a }),
            Err(e) => Err(e),
        }
    } else if t == 3 && n == 4 {
        Ok(AttrsModel { next_hop: Some(IpModel::V4(d)), ..a })
    } else if t == 4 && n == 4 {
        Ok(AttrsModel { multi_exit_disc: Some(be32_at(d, 0) as u32), ..a })
    } else if t == 5 && n == 4 {
        Ok(AttrsModel { local_pref: Some(be32_at(d, 0) as u32), ..a })
    } else if t == 6 {
        Ok(AttrsModel { atomic_aggregate: true, ..a })
    } else if t == 7 && n == 6 {
        Ok(AttrsModel { aggregator: Some((be16_at(d, 0) as u32, d.subrange(2, 6))), ..a })
    } else if t == 7 && n == 8 {
        Ok(AttrsModel { aggregator: Some((be32_at(d, 0) as u32, d.subrange(4, 8))), ..a })
    } else {
        Ok(step_unknown(a, flags, t, d))
    }
}

/// COMMUNITY, ORIGINATOR_ID, CLUSTER_LIST, EXTENDED COMMUNITIES, AS4_PATH,
/// AS4_AGGREGATOR.
pub open spec fn step_lists(a: AttrsModel, flags: u8, t: u8, d: Seq<u8>) -> Result<AttrsModel, ErrorModel> {
    let n = d.len();
    if t == 8 {
        Ok(
            AttrsModel {
                communities: a.communities + spec_words(d).map_values(|w: u32| StandardCommunity(w)),
                ..a
            },
        )
    } else if t == 9 && n == 4 {
        Ok(AttrsModel { originator_id: Some(d), ..a })
    } else if t == 10 {
        Ok(AttrsModel { cluster_list: a.cluster_list + quads(d), ..a })
    } else if t == 16 {
        Ok(AttrsModel { extended_communities: a.extended_communities + ext_communities(d), ..a })
    } else if t == 17 {
        match spec_parse_as_path(d, true) {
            Ok(p) => Ok(AttrsModel { as4_path: Some(p), ..a }),
            Err(e) => Err(e),
        }
    } else if t == 18 && n == 8 {
        Ok(AttrsModel { as4_aggregator: Some((be32_at(d, 0) as u32, d.subrange(4, 8))), ..a })
    } else {
        Ok(step_unknown(a, flags, t, d))
    }
}

/// MP_REACH_NLRI (at least 4 bytes) and MP_UNREACH_NLRI (at least 3).
pub open spec fn step_mp(a: AttrsModel, flags: u8, t: u8, d: Seq<u8>) -> Option<Result<AttrsModel, ErrorModel>> {
    let n = d.len();
    if t == 14 && n >= 4 {
        match spec_mp_reach(d) {
            None => None,
            Some(Err(e)) => Some(Err(e)),
            Some(Ok(r)) => Some(
                Ok(
                    AttrsModel {
                        mp_reach: Some(r.0),
                        evpn_reach: r.1,
                        flowspec_reach: r.2,
                        bgpls_reach: r.3,
                        sr_policy_nlris: r.4,
                        rtc_nlris: r.5,
                        ..a
                    },
                ),
            ),
        }
    } else if t == 15 && n >= 3 {
        match spec_mp_unreach(d) {
            None => None,
            Some(Err(e)) => Some(Err(e)),
            Some(Ok(r)) => Some(
                Ok(
                    AttrsModel {
                        mp_unreach: Some(r.0),
                        evpn_unreach: r.1,
                        flowspec_unreach: r.2,
                        bgpls_unreach: r.3,
                        sr_policy_nlris: match r.4 {
                            Some(v) => v,
                            None => a.sr_policy_nlris,
                        },
                        ..a
                    },
                ),
            ),
        }
    } else {
        Some(Ok(step_unknown(a, flags, t, d)))
    }
}

/// TUNNEL_ENCAPSULATION, BGP-LS, BGPsec_Path (None past 255 signature
/// blocks, where the decoder would panic), LARGE_COMMUNITY,
/// ONLY_TO_CUSTOMER, Prefix-SID.
pub open spec fn step_other(a: AttrsModel, flags: u8, t: u8, d: Seq<u8>) -> Option<AttrsModel> {
    let n = d.len();
    if t == 23 {
        Some(AttrsModel { tunnel_encap: Some(spec_tunnel_encap(d)), ..a })
    } else if t == 32 {
        Some(AttrsModel { large_communities: a.large_communities + large_communities(d), ..a })
    } else if t == 35 && n == 4 {
        Some(AttrsModel { only_to_customer: Some(be32_at(d, 0) as u32), ..a })
    } else if t == 29 {
        Some(AttrsModel { bgpls_attr: Some(spec_bgpls_attribute(d)), ..a })
    } else if t == 40 {
        Some(AttrsModel { prefix_sid: Some(spec_prefix_sid(d)), ..a })
    } else if t == 30 {
        if spec_sig_block_count(d) > 255 {
            None
        } else {
            Some(
                AttrsModel {
                    bgpsec_path: Some(
                        BgpsecModel {
                            signing_asns: spec_signing_asns(d),
                            sig_block_count: spec_sig_block_count(d) as u8,
                            raw: d,
                        },
                    ),
                    ..a
                },
            )
        }
    } else {
        Some(step_unknown(a, flags, t, d))
    }
}

/// The attributes after one more attribute of type `t`, flags `flags` and
/// value `d`. A known type whose value has the wrong length is kept raw.
/// None where a decoder would panic.
#[verifier::opaque]
pub open spec fn attr_step(a: AttrsModel, flags: u8, t: u8, d: Seq<u8>) -> Option<Result<AttrsModel, ErrorModel>> {
    if 1 <= t <= 7 {
        Some(step_basic(a, flags, t, d))
    } else if t == 8 || t == 9 || t == 10 || t == 16 || t == 17 || t == 18 {
        Some(step_lists(a, flags, t, d))
    } else if t == 14 || t == 15 {
        step_mp(a, flags, t, d)
    } else if t == 23 || t == 29 || t == 30 || t == 32 || t == 35 || t == 40 {
        match step_other(a, flags, t, d) {
            None => None,
            Some(x) => Some(Ok(x)),
        }
    } else {
        Some(Ok(step_unknown(a, flags, t, d)))
    }
}

/// Attributes of `s` applied to `acc`: flags(1) + type(1) + length (two
/// bytes when flag 0x10 is set, else one) + value, while at least 3 bytes
/// remain. A length byte pair cut short and a value that runs past the end
/// are errors. None where a decoder would panic.
#[verifier::opaque]
pub open spec fn spec_attrs_from(s: Seq<u8>, acc: AttrsModel) -> Option<Result<AttrsModel, ErrorModel>>
    decreases s.len(),
{
    if s.len() < 3 {
        Some(Ok(acc))
    } else {
        let flags = s[0];
        let t = s[1];
        let ext = (flags / 16) % 2 == 1;
        if ext && s.len() - 2 < 2 {
            Some(Err(eof(2, s.len() - 2)))
        } else {
            let hl: int = if ext {
                4
            } else {
                3
            };
            let len: int = if ext {
                be16_at(s, 2)
            } else {
                s[2] as int
            };
            if s.len() - hl < len {
                Some(
                    Err(
                        ErrorModel::TruncatedAttribute {
                            attr_type: t,
                            declared: len as usize,
                            available: (s.len() - hl) as usize,
                        },
                    ),
                )
            } else {
                match attr_step(acc, flags, t, s.subrange(hl, hl + len)) {
                    None => None,
                    Some(Err(e)) => Some(Err(e)),
                    Some(Ok(a)) => spec_attrs_from(s.skip(hl + len), a),
                }
            }
        }
    }
}

/// The path attributes encoded in `s`; None where a decoder would panic.
pub open spec fn spec_path_attributes(s: Seq<u8>) -> Option<Result<AttrsModel, ErrorModel>> {
    spec_attrs_from(s, empty_attrs())
}

/// A well-formed LOCAL_PREF attribute (type 5, one-byte length 4) at the
/// front of an attribute block sets LOCAL_PREF to its four value bytes read
/// big-endian and leaves every other attribute, MED included, as it was; the
/// rest of the block is then read on from there. A MULTI_EXIT_DISC attribute
/// (type 4) does the same for MED, leaving LOCAL_PREF as it was.
pub proof fn lemma_local_pref_and_med(flags: u8, b: Seq<u8>, rest: Seq<u8>, acc: AttrsModel)
    requires
        (flags & 0x10) == 0,
        b.len() == 4,
    ensures
        ({
            let v = (b[0] * 16777216 + b[1] * 65536 + b[2] * 256 + b[3]) as u32;
            &&& spec_attrs_from(seq![flags, 5u8, 4u8] + b + rest, acc) == spec_attrs_from(
                rest,
                AttrsModel { local_pref: Some(v), ..acc },
            )
            &&& spec_attrs_from(seq![flags, 4u8, 4u8] + b + rest, acc) == spec_attrs_from(
                rest,
                AttrsModel { multi_exit_disc: Some(v), ..acc },
            )
        }),
{
    assert(((flags / 16) % 2 == 1) == ((flags & 0x10) != 0)) by (bit_vector);
    reveal(spec_attrs_from);
    let s5 = seq![flags, 5u8, 4u8] + b + rest;
    let s4 = seq![flags, 4u8, 4u8] + b + rest;
    assert(s5.subrange(3, 7) =~= b);
    assert(s4.subrange(3, 7) =~= b);
    assert(s5.skip(7) =~= rest);
    assert(s4.skip(7) =~= rest);
    reveal(attr_step);
    assert(s5[0] == flags && s5[1] == 5 && s5[2] == 4);
    assert(s4[0] == flags && s4[1] == 4 && s4[2] == 4);
    let v = (b[0] * 16777216 + b[1] * 65536 + b[2] * 256 + b[3]) as u32;
    assert(be32_at(b, 0) == b[0] * 16777216 + b[1] * 65536 + b[2] * 256 + b[3]);
    assert((be32_at(b, 0) as u32) == v);
    assert(step_basic(acc, flags, 5, b) == Ok::<AttrsModel, ErrorModel>(
        AttrsModel { local_pref: Some(v), ..acc },
    ));
    assert(attr_step(acc, flags, 5, b) == Some(
        Ok::<AttrsModel, ErrorModel>(AttrsModel { local_pref: Some(v), ..acc }),
    ));
    assert(attr_step(acc, flags, 4, b) == Some(
        Ok::<AttrsModel, ErrorModel>(AttrsModel { multi_exit_disc: Some(v), ..acc }),
    ));
    assert(s5.len() >= 3 && !((s5[0] / 16) % 2 == 1) && s5[2] as int == 4 && s5.len() - 3 >= 4);
}

/// An ORIGIN attribute (type 1, one value byte) at the front of an attribute
/// block sets ORIGIN to IGP for 0, EGP for 1 and INCOMPLETE for 2, leaving the
/// rest as it was, and any other value is an error; a NEXT_HOP attribute
/// (type 3, four value bytes) sets the IPv4 next hop to those bytes.
pub proof fn lemma_origin_and_next_hop(flags: u8, v: u8, b: Seq<u8>, rest: Seq<u8>, acc: AttrsModel)
    requires
        (flags & 0x10) == 0,
        b.len() == 4,
    ensures
        ({
            let s1 = seq![flags, 1u8, 1u8, v] + rest;
            &&& v == 0 ==> spec_attrs_from(s1, acc) == spec_attrs_from(
                rest,
                AttrsModel { origin: Some(Origin::Igp), ..acc },
            )
            &&& v == 1 ==> spec_attrs_from(s1, acc) == spec_attrs_from(
                rest,
                AttrsModel { origin: Some(Origin::Egp), ..acc },
            )
            &&& v == 2 ==> spec_attrs_from(s1, acc) == spec_attrs_from(
                rest,
                AttrsModel { origin: Some(Origin::Incomplete), ..acc },
            )
            &&& v > 2 ==> spec_attrs_from(s1, acc) matches Some(Err(_))
        }),
        spec_attrs_from(seq![flags, 3u8, 4u8] + b + rest, acc) == spec_attrs_from(
            rest,
            AttrsModel { next_hop: Some(IpModel::V4(b)), ..acc },
        ),
{
    assert(((flags / 16) % 2 == 1) == ((flags & 0x10) != 0)) by (bit_vector);
    reveal(spec_attrs_from);
    reveal(attr_step);
    let s1 = seq![flags, 1u8, 1u8, v] + rest;
    let s3 = seq![flags, 3u8, 4u8] + b + rest;
    assert(s1.subrange(3, 4) =~= seq![v]);
    assert(s1.skip(4) =~= rest);
    assert(s3.subrange(3, 7) =~= b);
    assert(s3.skip(7) =~= rest);
    assert(s1[0] == flags && s1[1] == 1 && s1[2] == 1);
    assert(s3[0] == flags && s3[1] == 3 && s3[2] == 4);
}

fn push_communities(out: &mut Vec<StandardCommunity>, buf: &[u8], off: usize, len: usize)
    requires
        off + len <= buf.len(),
    ensures
        final(out)@ == old(out)@ + spec_words(buf@.subrange(off as int, off + len)).map_values(
            |w: u32| StandardCommunity(w),
        ),
{
    let ghost d = buf@.subrange(off as int, off + len);
    let ghost target = spec_words(d).map_values(|w: u32| StandardCommunity(w));
    let count: usize = len / 4;
    let mut k: usize = 0;
    while k < count
        invariant
            off + len <= buf.len(),
            count == len / 4,
            k <= count,
            d == buf@.subrange(off as int, off + len),
            target == spec_words(d).map_values(|w: u32| StandardCommunity(w)),
            out@ == old(out)@ + target.subrange(0, k as int),
        decreases count - k,
    {
        out.push(StandardCommunity(read_u32(buf, off + 4 * k)));
        k = k + 1;
        assert(out@ =~= old(out)@ + target.subrange(0, k as int));
    }
    assert(target.subrange(0, count as int) =~= target);
}

fn push_quads(out: &mut Vec<[u8; 4]>, buf: &[u8], off: usize, len: usize)
    requires
        off + len <= buf.len(),
    ensures
        quads_view(final(out)@) == quads_view(old(out)@) + quads(buf@.subrange(off as int, off + len)),
{
    let ghost d = buf@.subrange(off as int, off + len);
    let count: usize = len / 4;
    let mut k: usize = 0;
    while k < count
        invariant
            off + len <= buf.len(),
            count == len / 4,
            k <= count,
            d == buf@.subrange(off as int, off + len),
            quads_view(out@) == quads_view(old(out)@) + quads(d).subrange(0, k as int),
        decreases count - k,
    {
        let a = read_array4(buf, off + 4 * k);
        let ghost before = quads_view(out@);
        out.push(a);
        k = k + 1;
        assert(a@ =~= quads(d)[k - 1]);
        assert(quads_view(out@) =~= before.push(a@));
        assert(quads_view(out@) =~= quads_view(old(out)@) + quads(d).subrange(0, k as int));
    }
    assert(quads(d).subrange(0, count as int) =~= quads(d));
}

fn push_ext_communities(out: &mut Vec<ExtendedCommunity>, buf: &[u8], off: usize, len: usize)
    requires
        off + len <= buf.len(),
    ensures
        exts_view(final(out)@) == exts_view(old(out)@) + ext_communities(buf@.subrange(off as int, off + len)),
{
    let ghost d = buf@.subrange(off as int, off + len);
    let count: usize = len / 8;
    let mut k: usize = 0;
    while k < count
        invariant
            off + len <= buf.len(),
            count == len / 8,
            k <= count,
            d == buf@.subrange(off as int, off + len),
            exts_view(out@) == exts_view(old(out)@) + ext_communities(d).subrange(0, k as int),
        decreases count - k,
    {
        let raw = read_array8(buf, off + 8 * k);
        let c = ExtendedCommunity::from_bytes(&raw);
        let ghost before = exts_view(out@);
        out.push(c);
        k = k + 1;
        assert(c.value@ =~= d.subrange(8 * (k - 1) + 2, 8 * (k - 1) + 8));
        assert(exts_view(out@) =~= before.push(ext_model(c)));
        assert(exts_view(out@) =~= exts_view(old(out)@) + ext_communities(d).subrange(0, k as int));
    }
    assert(ext_communities(d).subrange(0, count as int) =~= ext_communities(d));
}

fn push_large_communities(out: &mut Vec<LargeCommunity>, buf: &[u8], off: usize, len: usize)
    requires
        off + len <= buf.len(),
    ensures
        final(out)@ == old(out)@ + large_communities(buf@.subrange(off as int, off + len)),
{
    let ghost d = buf@.subrange(off as int, off + len);
    let count: usize = len / 12;
    let mut k: usize = 0;
    while k < count
        invariant
            off + len <= buf.len(),
            count == len / 12,
            k <= count,
            d == buf@.subrange(off as int, off + len),
            out@ == old(out)@ + large_communities(d).subrange(0, k as int),
        decreases count - k,
    {
        let p: usize = off + 12 * k;
        out.push(
            LargeCommunity {
                global_admin: read_u32(buf, p),
                local_data_1: read_u32(buf, p + 4),
                local_data_2: read_u32(buf, p + 8),
            },
        );
        k = k + 1;
        assert(out@ =~= old(out)@ + large_communities(d).subrange(0, k as int));
    }
    assert(large_communities(d).subrange(0, count as int) =~= large_communities(d));
}

pub open spec fn attr_result(a: AttrsModel, flags: u8, t: u8, d: Seq<u8>, r: Result<(), Error>, a2: AttrsModel) -> bool {
    match r {
        Ok(()) => attr_step(a, flags, t, d) == Some(Ok::<AttrsModel, ErrorModel>(a2)),
        Err(e) => attr_step(a, flags, t, d) == Some(Err::<AttrsModel, ErrorModel>(e@)),
    }
}

fn push_unknown(attrs: &mut PathAttributes, buf: &[u8], flags: u8, t: u8, off: usize, len: usize)
    requires
        off + len <= buf.len(),
    ensures
        final(attrs)@ == step_unknown(old(attrs)@, flags, t, buf@.subrange(off as int, off + len)),
{
    proof {
        reveal(vw_unknown);
    }
    let value = copy_range(buf, off, len);
    let ghost before = raws_view(attrs.unknown@);
    let raw = RawAttribute { flags, type_code: t, value };
    attrs.unknown.push(raw);
    assert(raws_view(attrs.unknown@) =~= before.push((flags, t, buf@.subrange(off as int, off + len))));
}

/// ORIGIN, AS_PATH, NEXT_HOP, MED, LOCAL_PREF, ATOMIC_AGGREGATE, AGGREGATOR.
#[verifier::rlimit(40)]
fn apply_basic(attrs: &mut PathAttributes, buf: &[u8], flags: u8, t: u8, off: usize, len: usize) -> (r: Result<(), Error>)
    requires
        off + len <= buf.len(),
        1 <= t <= 7,
    ensures
        match r {
            Ok(()) => step_basic(old(attrs)@, flags, t, buf@.subrange(off as int, off + len)) == Ok::<AttrsModel, ErrorModel>(final(attrs)@),
            Err(e) => step_basic(old(attrs)@, flags, t, buf@.subrange(off as int, off + len)) == Err::<AttrsModel, ErrorModel>(e@),
        },
{
    proof {
        reveal(vw_as_path);
        reveal(vw_next_hop);
        reveal(vw_aggregator);
    }
    let ghost d = buf@.subrange(off as int, off + len);
    if t == 1 && len >= 1 {
        match Origin::try_from_u8(buf[off]) {
            Ok(o) => {
                attrs.origin = Some(o);
            },
            Err(e) => {
                return Err(e);
            },
        }
    } else if t == 2 {
        let data = copy_range(buf, off, len);
        assert(data@ == d);
        match parse_as_path(data.as_slice(), false) {
            Ok(p) => {
                attrs.as_path = Some(p);
            },
            Err(e) => {
                return Err(e);
            },
        }
    } else if t == 3 && len == 4 {
        let a = read_array4(buf, off);
        assert(a@ =~= d);
        attrs.next_hop = Some(IpAddress::V4(a));
    } else if t == 4 && len == 4 {
        attrs.multi_exit_disc = Some(read_u32(buf, off));
    } else if t == 5 && len == 4 {
        attrs.local_pref = Some(read_u32(buf, off));
    } else if t == 6 {
        attrs.atomic_aggregate = true;
    } else if t == 7 && len == 6 {
        let asn = read_u16(buf, off) as u32;
        let id = read_array4(buf, off + 2);
        assert(id@ =~= d.subrange(2, 6));
        attrs.aggregator = Some((asn, id));
    } else if t == 7 && len == 8 {
        let asn = read_u32(buf, off);
        let id = read_array4(buf, off + 4);
        assert(id@ =~= d.subrange(4, 8));
        attrs.aggregator = Some((asn, id));
    } else {
        push_unknown(attrs, buf, flags, t, off, len);
    }
    Ok(())
}

/// COMMUNITY, ORIGINATOR_ID, CLUSTER_LIST, EXTENDED COMMUNITIES, AS4_PATH,
/// AS4_AGGREGATOR.
#[verifier::rlimit(40)]
fn apply_lists(attrs: &mut PathAttributes, buf: &[u8], flags: u8, t: u8, off: usize, len: usize) -> (r: Result<(), Error>)
    requires
        off + len <= buf.len(),
        t == 8 || t == 9 || t == 10 || t == 16 || t == 17 || t == 18,
    ensures
        match r {
            Ok(()) => step_lists(old(attrs)@, flags, t, buf@.subrange(off as int, off + len)) == Ok::<AttrsModel, ErrorModel>(final(attrs)@),
            Err(e) => step_lists(old(attrs)@, flags, t, buf@.subrange(off as int, off + len)) == Err::<AttrsModel, ErrorModel>(e@),
        },
{
    proof {
        reveal(vw_extended_communities);
        reveal(vw_originator_id);
        reveal(vw_cluster_list);
        reveal(vw_as_path);
        reveal(vw_aggregator);
    }
    if t == 8 {
        push_communities(&mut attrs.communities, buf, off, len);
    } else if t == 9 && len == 4 {
        let id = read_array4(buf, off);
        attrs.originator_id = Some(id);
    } else if t == 10 {
        push_quads(&mut attrs.cluster_list, buf, off, len);
    } else if t == 16 {
        push_ext_communities(&mut attrs.extended_communities, buf, off, len);
    } else if t == 17 {
        let data = copy_range(buf, off, len);
        match parse_as_path(data.as_slice(), true) {
            Ok(p) => {
                attrs.as4_path = Some(p);
            },
            Err(e) => {
                return Err(e);
            },
        }
    } else if t == 18 && len == 8 {
        let asn = read_u32(buf, off);
        let id = read_array4(buf, off + 4);
        assert(id@ =~= buf@.subrange(off as int, off + len).subrange(4, 8));
        attrs.as4_aggregator = Some((asn, id));
    } else {
        push_unknown(attrs, buf, flags, t, off, len);
    }
    Ok(())
}

/// MP_REACH_NLRI and MP_UNREACH_NLRI.
#[verifier::rlimit(40)]
fn apply_mp(attrs: &mut PathAttributes, buf: &[u8], flags: u8, t: u8, off: usize, len: usize) -> (r: Result<(), Error>)
    requires
        off + len <= buf.len(),
        buf.len() <= isize::MAX,
        step_mp(old(attrs)@, flags, t, buf@.subrange(off as int, off + len)) is Some,
    ensures
        match r {
            Ok(()) => step_mp(old(attrs)@, flags, t, buf@.subrange(off as int, off + len)) == Some(Ok::<AttrsModel, ErrorModel>(final(attrs)@)),
            Err(e) => step_mp(old(attrs)@, flags, t, buf@.subrange(off as int, off + len)) == Some(Err::<AttrsModel, ErrorModel>(e@)),
        },
{
    proof {
        reveal(vw_mp_reach);
        reveal(vw_evpn_reach);
        reveal(vw_flowspec);
        reveal(vw_bgpls_reach);
        reveal(vw_sr_policy_nlris);
        reveal(vw_rtc_nlris);
        reveal(vw_mp_unreach);
        reveal(vw_evpn_unreach);
        reveal(vw_bgpls_unreach);
    }
    if t == 14 && len >= 4 {
        let data = copy_range(buf, off, len);
        match parse_mp_reach(data.as_slice()) {
            Ok((mp, evpn, fs, ls, sr, rtc)) => {
                attrs.mp_reach = Some(mp);
                attrs.evpn_reach = evpn;
                attrs.flowspec_reach = fs;
                attrs.bgpls_reach = ls;
                attrs.sr_policy_nlris = sr;
                attrs.rtc_nlris = rtc;
            },
            Err(e) => {
                return Err(e);
            },
        }
    } else if t == 15 && len >= 3 {
        let data = copy_range(buf, off, len);
        match parse_mp_unreach(data.as_slice()) {
            Ok((mp, evpn, fs, ls, sr, _rtc)) => {
                attrs.mp_unreach = Some(mp);
                attrs.evpn_unreach = evpn;
                attrs.flowspec_unreach = fs;
                attrs.bgpls_unreach = ls;
                match sr {
                    Some(nlris) => {
                        attrs.sr_policy_nlris = nlris;
                    },
                    None => {},
                }
            },
            Err(e) => {
                return Err(e);
            },
        }
    } else {
        push_unknown(attrs, buf, flags, t, off, len);
    }
    Ok(())
}

/// TUNNEL_ENCAPSULATION, BGP-LS, BGPsec_Path, LARGE_COMMUNITY,
/// ONLY_TO_CUSTOMER, Prefix-SID.
#[verifier::rlimit(40)]
fn apply_other(attrs: &mut PathAttributes, buf: &[u8], flags: u8, t: u8, off: usize, len: usize) -> (r: Result<(), Error>)
    requires
        off + len <= buf.len(),
        step_other(old(attrs)@, flags, t, buf@.subrange(off as int, off + len)) is Some,
    ensures
        r is Ok,
        step_other(old(attrs)@, flags, t, buf@.subrange(off as int, off + len)) == Some(final(attrs)@),
{
    proof {
        reveal(vw_tunnel_encap);
        reveal(vw_bgpls_attr);
        reveal(vw_prefix_sid);
        reveal(vw_bgpsec_path);
    }
    let ghost d = buf@.subrange(off as int, off + len);
    if t == 23 {
        let data = copy_range(buf, off, len);
        attrs.tunnel_encap = Some(parse_tunnel_encap(data.as_slice()));
    } else if t == 32 {
        push_large_communities(&mut attrs.large_communities, buf, off, len);
    } else if t == 35 && len == 4 {
        attrs.only_to_customer = Some(read_u32(buf, off));
    } else if t == 29 {
        let data = copy_range(buf, off, len);
        attrs.bgpls_attr = Some(parse_bgpls_attribute(data.as_slice()));
    } else if t == 40 {
        let data = copy_range(buf, off, len);
        attrs.prefix_sid = match parse_prefix_sid(data.as_slice()) {
            Ok(p) => Some(p),
            Err(_) => None,
        };
    } else if t == 30 {
        let data = copy_range(buf, off, len);
        assert(data@ == d);
        attrs.bgpsec_path = Some(parse_bgpsec_path(data.as_slice()));
    } else {
        push_unknown(attrs, buf, flags, t, off, len);
    }
    Ok(())
}

/// Applies one attribute (type `t`, flags `flags`, value `buf[off..off + len]`).
fn apply_attr(attrs: &mut PathAttributes, buf: &[u8], flags: u8, t: u8, off: usize, len: usize) -> (r: Result<(), Error>)
    requires
        off + len <= buf.len(),
        buf.len() <= isize::MAX,
        attr_step(old(attrs)@, flags, t, buf@.subrange(off as int, off + len)) is Some,
    ensures
        attr_result(old(attrs)@, flags, t, buf@.subrange(off as int, off + len), r, final(attrs)@),
{
    proof {
        reveal(attr_step);
    }
    if 1 <= t && t <= 7 {
        apply_basic(attrs, buf, flags, t, off, len)
    } else if t == 8 || t == 9 || t == 10 || t == 16 || t == 17 || t == 18 {
        apply_lists(attrs, buf, flags, t, off, len)
    } else if t == 14 || t == 15 {
        apply_mp(attrs, buf, flags, t, off, len)
    } else if t == 23 || t == 29 || t == 30 || t == 32 || t == 35 || t == 40 {
        apply_other(attrs, buf, flags, t, off, len)
    } else {
        push_unknown(attrs, buf, flags, t, off, len);
        Ok(())
    }
}

impl Default for PathAttributes {
    fn default() -> (r: PathAttributes)
        ensures
            r@ == empty_attrs(),
    {
        let r = PathAttributes {
            origin: None,
            as_path: None,
            next_hop: None,
            multi_exit_disc: None,
            local_pref: None,
            atomic_aggregate: false,
            aggregator: None,
            communities: Vec::new(),
            extended_communities: Vec::new(),
            large_communities: Vec::new(),
            originator_id: None,
            cluster_list: Vec::new(),
            mp_reach: None,
            mp_unreach: None,
            as4_path: None,
            as4_aggregator: None,
            evpn_reach: None,
            evpn_unreach: None,
            flowspec_reach: None,
            flowspec_unreach: None,
            prefix_sid: None,
            tunnel_encap: None,
            only_to_customer: None,
            bgpls_reach: None,
            bgpls_unreach: None,
            bgpls_attr: None,
            sr_policy_nlris: Vec::new(),
            sr_policy_paths: Vec::new(),
            rtc_nlris: Vec::new(),
            bgpsec_path: None,
            unknown: Vec::new(),
        };
        proof {
            reveal(vw_as_path);
            reveal(vw_next_hop);
            reveal(vw_aggregator);
            reveal(vw_extended_communities);
            reveal(vw_originator_id);
            reveal(vw_cluster_list);
            reveal(vw_mp_reach);
            reveal(vw_mp_unreach);
            reveal(vw_evpn_reach);
            reveal(vw_evpn_unreach);
            reveal(vw_flowspec);
            reveal(vw_prefix_sid);
            reveal(vw_tunnel_encap);
            reveal(vw_bgpls_reach);
            reveal(vw_bgpls_unreach);
            reveal(vw_bgpls_attr);
            reveal(vw_sr_policy_nlris);
            reveal(vw_sr_policy_paths);
            reveal(vw_rtc_nlris);
            reveal(vw_bgpsec_path);
            reveal(vw_unknown);
            assert(r@ =~= empty_attrs()) by {
                assert(r@.extended_communities =~= Seq::<(u8, u8, Seq<u8>)>::empty());
                assert(r@.cluster_list =~= Seq::<Seq<u8>>::empty());
                assert(r@.sr_policy_nlris =~= Seq::<SrPolicyModel>::empty());
                assert(r@.sr_policy_paths =~= Seq::<CandidatePathModel>::empty());
                assert(r@.rtc_nlris =~= Seq::<RtcModel>::empty());
                assert(r@.unknown =~= Seq::<(u8, u8, Seq<u8>)>::empty());
            }
        }
        r
    }
}

proof fn lemma_attrs_unfold(s: Seq<u8>, acc: AttrsModel)
    ensures
        spec_attrs_from(s, acc) == (if s.len() < 3 {
            Some(Ok(acc))
        } else {
            let flags = s[0];
            let t = s[1];
            let ext = (flags / 16) % 2 == 1;
            if ext && s.len() - 2 < 2 {
                Some(Err(eof(2, s.len() - 2)))
            } else {
                let hl: int = if ext {
                    4
                } else {
                    3
                };
                let len: int = if ext {
                    be16_at(s, 2)
                } else {
                    s[2] as int
                };
                if s.len() - hl < len {
                    Some(
                        Err(
                            ErrorModel::TruncatedAttribute {
                                attr_type: t,
                                declared: len as usize,
                                available: (s.len() - hl) as usize,
                            },
                        ),
                    )
                } else {
                    match attr_step(acc, flags, t, s.subrange(hl, hl + len)) {
                        None => None,
                        Some(Err(e)) => Some(Err(e)),
                        Some(Ok(a)) => spec_attrs_from(s.skip(hl + len), a),
                    }
                }
            }
        }),
{
    reveal(spec_attrs_from);
}

/// Decodes the path attributes section of an UPDATE.
#[verifier::rlimit(30)]
pub fn parse_path_attributes(buf: &[u8]) -> (r: Result<PathAttributes, Error>)
    requires
        spec_path_attributes(buf@) is Some,
        buf.len() <= isize::MAX,
    ensures
        match r {
            Ok(a) => spec_path_attributes(buf@) == Some(Ok::<AttrsModel, ErrorModel>(a@)),
            Err(e) => spec_path_attributes(buf@) == Some(Err::<AttrsModel, ErrorModel>(e@)),
        },
{
    let mut attrs = PathAttributes::default();
    let mut pos: usize = 0;
    proof {
        assert(buf@.skip(0) =~= buf@);
    }
    loop
        invariant_except_break
            pos <= buf.len(),
            spec_path_attributes(buf@) == spec_attrs_from(buf@.skip(pos as int), attrs@),
        invariant
            spec_path_attributes(buf@) is Some,
            buf.len() <= isize::MAX,
        ensures
            spec_path_attributes(buf@) == Some(Ok::<AttrsModel, ErrorModel>(attrs@)),
        decreases buf.len() - pos,
    {
        let ghost rest = buf@.skip(pos as int);
        proof {
            lemma_attrs_unfold(rest, attrs@);
        }
        if buf.len() - pos < 3 {
            break;
        }
        let flags = buf[pos];
        let type_code = buf[pos + 1];
        let ext = (flags / 16) % 2 == 1;
        let have: usize = buf.len() - pos - 2;
        if ext && have < 2 {
            return Err(Error::UnexpectedEof { needed: 2, have });
        }
        let hl: usize = if ext {
            4
        } else {
            3
        };
        let attr_len: usize = if ext {
            read_u16(buf, pos + 2) as usize
        } else {
            buf[pos + 2] as usize
        };
        proof {
            if ext {
                assert(be16_at(rest, 2) == be16_at(buf@, pos + 2));
            }
        }
        if buf.len() - pos - hl < attr_len {
            return Err(
                Error::TruncatedAttribute {
                    attr_type: type_code,
                    declared: attr_len,
                    available: buf.len() - pos - hl,
                },
            );
        }
        let off: usize = pos + hl;
        proof {
            assert(rest.subrange(hl as int, hl + attr_len) =~= buf@.subrange(off as int, off + attr_len));
        }
        match apply_attr(&mut attrs, buf, flags, type_code, off, attr_len) {
            Err(e) => {
                return Err(e);
            },
            Ok(()) => {},
        }
        proof {
            assert(rest.skip(hl + attr_len) =~= buf@.skip(off + attr_len));
        }
        pos = off + attr_len;
    }
    Ok(attrs)
}

} // verus!
