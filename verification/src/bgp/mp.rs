//! Multiprotocol reachability attributes: MP_REACH_NLRI and MP_UNREACH_NLRI
//! (RFC 4760), dispatched by SAFI to the NLRI decoders.

use vstd::prelude::*;
use crate::error::{Error, ErrorModel, eof};
use crate::net::{IpAddress, IpModel};
use crate::wire::{be16_at, read_u16, copy_range};
use crate::bgp::types::{Afi, Safi, AfiSafi, Prefix, PrefixModel, afi_safi_of};
use crate::bgp::nlri::{
    decode_nlri, decode_labeled_nlri, decode_vpn_nlri, decode_next_hops, decode_vpls_nlri, spec_nlri,
    spec_labeled_nlri, spec_vpn_nlri, spec_next_hops, prefixes_view, prefixes_res,
};
use crate::bgp::evpn::{EvpnRoute, EvpnModel, decode_evpn_nlri, spec_evpn_from, routes_view, routes_res};
use crate::bgp::flowspec::{FlowspecNlri, FlowspecNlriModel, decode_flowspec_nlri, spec_decode_flowspec, nlris_view};
use crate::bgp::bgpls::{
    BgpLsReachNlri, BgpLsUnreachNlri, LsNlriModel, decode_bgpls_reach, decode_bgpls_unreach, spec_ls_nlris,
    ls_nlris_view,
};
use crate::bgp::srpolicy::{
    SrPolicyNlri, SrPolicyModel, RtcNlri, RtcModel, decode_srpolicy_nlri, decode_rtc_nlri, spec_srpolicy_nlri,
    spec_rtc_from, policies_view, rtcs_view,
};

verus! {

/// EVPN NLRI carried in MP_REACH_NLRI.
#[derive(Clone, Debug)]
pub struct EvpnReachNlri {
    pub next_hops: Vec<IpAddress>,
    pub routes: Vec<EvpnRoute>,
}

/// EVPN NLRI carried in MP_UNREACH_NLRI.
#[derive(Clone, Debug)]
pub struct EvpnUnreachNlri {
    pub routes: Vec<EvpnRoute>,
}

/// MP_REACH_NLRI: address family, next hops and the prefixes announced.
#[derive(Clone, Debug)]
pub struct MpReachNlri {
    pub afi_safi: AfiSafi,
    pub next_hops: Vec<IpAddress>,
    pub prefixes: Vec<Prefix>,
}

/// MP_UNREACH_NLRI: address family and the prefixes withdrawn.
#[derive(Clone, Debug)]
pub struct MpUnreachNlri {
    pub afi_safi: AfiSafi,
    pub prefixes: Vec<Prefix>,
}

pub struct MpReachModel {
    pub afi_safi: AfiSafi,
    pub next_hops: Seq<IpModel>,
    pub prefixes: Seq<PrefixModel>,
}

pub struct MpUnreachModel {
    pub afi_safi: AfiSafi,
    pub prefixes: Seq<PrefixModel>,
}

impl View for MpReachNlri {
    type V = MpReachModel;

    open spec fn view(&self) -> MpReachModel {
        MpReachModel {
            afi_safi: self.afi_safi,
            next_hops: ips_view(self.next_hops@),
            prefixes: prefixes_view(self.prefixes@),
        }
    }
}

impl View for MpUnreachNlri {
    type V = MpUnreachModel;

    open spec fn view(&self) -> MpUnreachModel {
        MpUnreachModel { afi_safi: self.afi_safi, prefixes: prefixes_view(self.prefixes@) }
    }
}

pub open spec fn ips_view(v: Seq<IpAddress>) -> Seq<IpModel> {
    v.map_values(|a: IpAddress| a@)
}

/// What MP_REACH_NLRI yields: the attribute itself, then EVPN (next hops,
/// routes), Flowspec NLRIs, BGP-LS (next hop, NLRIs), SR Policy NLRIs and
/// RTC NLRIs, each present only for its SAFI.
pub type ReachModel = (
    MpReachModel,
    Option<(Seq<IpModel>, Seq<EvpnModel>)>,
    Option<Seq<FlowspecNlriModel>>,
    Option<(Option<IpModel>, Seq<LsNlriModel>)>,
    Seq<SrPolicyModel>,
    Seq<RtcModel>,
);

pub type ReachParts = (
    MpReachNlri,
    Option<EvpnReachNlri>,
    Option<Vec<FlowspecNlri>>,
    Option<BgpLsReachNlri>,
    Vec<SrPolicyNlri>,
    Vec<RtcNlri>,
);

pub open spec fn reach_view(r: ReachParts) -> ReachModel {
    (
        r.0@,
        match r.1 {
            Some(e) => Some((ips_view(e.next_hops@), routes_view(e.routes@))),
            None => None,
        },
        match r.2 {
            Some(f) => Some(nlris_view(f@)),
            None => None,
        },
        match r.3 {
            Some(l) => Some(
                (
                    match l.next_hop {
                        Some(a) => Some(a@),
                        None => None,
                    },
                    ls_nlris_view(l.nlris@),
                ),
            ),
            None => None,
        },
        policies_view(r.4@),
        rtcs_view(r.5@),
    )
}

/// A decoder result whose error is replaced by an empty list.
pub open spec fn or_empty<T>(r: Result<Seq<T>, ErrorModel>) -> Seq<T> {
    match r {
        Ok(v) => v,
        Err(_) => Seq::empty(),
    }
}

/// The NLRI part `rem` of MP_REACH_NLRI for family `fam` with next hops
/// `nh`, decoded by SAFI; None where a decoder would panic.
pub open spec fn spec_reach_body(fam: AfiSafi, nh: Seq<IpModel>, rem: Seq<u8>) -> Option<
    Result<ReachModel, ErrorModel>,
> {
    let v6 = fam.afi == Afi::Ipv6;
    let plain = MpReachModel { afi_safi: fam, next_hops: nh, prefixes: Seq::empty() };
    match fam.safi {
        Safi::Evpn => Some(
            Ok(
                (
                    plain,
                    Some((nh, or_empty(spec_evpn_from(rem, Seq::empty())))),
                    None,
                    None,
                    Seq::empty(),
                    Seq::empty(),
                ),
            ),
        ),
        Safi::Flowspec | Safi::FlowspecVpn => match spec_decode_flowspec(rem, v6) {
            None => None,
            Some(r) => Some(Ok((plain, None, Some(or_empty(r)), None, Seq::empty(), Seq::empty()))),
        },
        Safi::BgpLs | Safi::BgpLsSrv6 => match spec_ls_nlris(rem) {
            None => None,
            Some(r) => Some(
                Ok(
                    (
                        plain,
                        None,
                        None,
                        Some((if nh.len() > 0 { Some(nh[0]) } else { None }, or_empty(r))),
                        Seq::empty(),
                        Seq::empty(),
                    ),
                ),
            ),
        },
        Safi::SrPolicy => Some(Ok((plain, None, None, None, spec_srpolicy_nlri(rem, v6), Seq::empty()))),
        Safi::RouteTargetConstraint => Some(
            Ok((plain, None, None, None, Seq::empty(), or_empty(spec_rtc_from(rem, 0, Seq::empty())))),
        ),
        Safi::Unicast | Safi::Multicast => match spec_nlri(rem, fam.afi) {
            Err(e) => Some(Err(e)),
            Ok(p) => Some(
                Ok((MpReachModel { prefixes: p, ..plain }, None, None, None, Seq::empty(), Seq::empty())),
            ),
        },
        Safi::LabeledUnicast => match spec_labeled_nlri(rem, fam.afi) {
            None => None,
            Some(Err(e)) => Some(Err(e)),
            Some(Ok(p)) => Some(
                Ok((MpReachModel { prefixes: p, ..plain }, None, None, None, Seq::empty(), Seq::empty())),
            ),
        },
        Safi::MplsVpn => match spec_vpn_nlri(rem, fam.afi) {
            None => None,
            Some(Err(e)) => Some(Err(e)),
            Some(Ok(p)) => Some(
                Ok((MpReachModel { prefixes: p, ..plain }, None, None, None, Seq::empty(), Seq::empty())),
            ),
        },
        _ => Some(Ok((plain, None, None, None, Seq::empty(), Seq::empty()))),
    }
}

#[verifier::opaque]
/// MP_REACH_NLRI decoded from its value `s`: AFI(2) + SAFI(1) + next hops
/// (length-prefixed) + one SNPA byte + NLRI. None where a decoder would panic.
pub open spec fn spec_mp_reach(s: Seq<u8>) -> Option<Result<ReachModel, ErrorModel>> {
    if s.len() < 4 {
        Some(Err(eof(4, s.len() as int)))
    } else {
        let fam = afi_safi_of(be16_at(s, 0) as u16, s[2]);
        match spec_next_hops(s.skip(3), fam.afi) {
            Err(e) => Some(Err(e)),
            Ok((nh, used)) => {
                let after = s.skip(3 + used as int);
                if after.len() < 1 {
                    Some(Err(eof(1, after.len() as int)))
                } else {
                    spec_reach_body(fam, nh, after.skip(1))
                }
            },
        }
    }
}

fn empty_reach(afi_safi: AfiSafi, next_hops: Vec<IpAddress>) -> (r: MpReachNlri)
    ensures
        r@ == (MpReachModel { afi_safi, next_hops: ips_view(next_hops@), prefixes: Seq::empty() }),
{
    let prefixes: Vec<Prefix> = Vec::new();
    let r = MpReachNlri { afi_safi, next_hops, prefixes };
    assert(r@.prefixes =~= Seq::<PrefixModel>::empty());
    r
}

fn clone_ips(v: &Vec<IpAddress>) -> (r: Vec<IpAddress>)
    ensures
        r@ == v@,
{
    let mut out: Vec<IpAddress> = Vec::new();
    let mut i: usize = 0;
    while i < v.len()
        invariant
            i <= v.len(),
            out@ == v@.subrange(0, i as int),
        decreases v.len() - i,
    {
        out.push(v[i]);
        i = i + 1;
        assert(out@ =~= v@.subrange(0, i as int));
    }
    assert(out@ =~= v@);
    out
}

/// Decodes an MP_REACH_NLRI attribute value.
#[verifier::rlimit(60)]
pub fn parse_mp_reach(buf: &[u8]) -> (r: Result<ReachParts, Error>)
    requires
        spec_mp_reach(buf@) is Some,
        buf.len() <= isize::MAX,
    ensures
        match r {
            Ok(p) => spec_mp_reach(buf@) == Some(Ok::<ReachModel, ErrorModel>(reach_view(p))),
            Err(e) => spec_mp_reach(buf@) == Some(Err::<ReachModel, ErrorModel>(e@)),
        },
{
    reveal(spec_mp_reach);
    if buf.len() < 4 {
        return Err(Error::UnexpectedEof { needed: 4, have: buf.len() });
    }
    let afi_code = read_u16(buf, 0);
    let afi_safi = AfiSafi::new(afi_code, buf[2]);
    let tail = copy_range(buf, 3, buf.len() - 3);
    assert(tail@ =~= buf@.skip(3));
    let (next_hops, used) = match decode_next_hops(tail.as_slice(), afi_safi.afi) {
        Err(e) => {
            return Err(e);
        },
        Ok(x) => x,
    };
    assert(next_hops@.map_values(|a: IpAddress| a@) == ips_view(next_hops@));
    let ghost after = buf@.skip(3 + used);
    if tail.len() - used < 1 {
        return Err(Error::UnexpectedEof { needed: 1, have: tail.len() - used });
    }
    let remaining = copy_range(tail.as_slice(), used + 1, tail.len() - used - 1);
    assert(remaining@ =~= after.skip(1));
    let rem = remaining.as_slice();
    let v6 = match afi_safi.afi {
        Afi::Ipv6 => true,
        _ => false,
    };
    let ghost nh = ips_view(next_hops@);
    match afi_safi.safi {
        Safi::Evpn => {
            let routes: Vec<EvpnRoute> = match decode_evpn_nlri(rem) {
                Ok(v) => v,
                Err(_) => Vec::new(),
            };
            assert(routes_view(routes@) == or_empty(spec_evpn_from(rem@, Seq::empty())));
            let evpn = EvpnReachNlri { next_hops: clone_ips(&next_hops), routes };
            let mp = empty_reach(afi_safi, next_hops);
            let out: ReachParts = (mp, Some(evpn), None, None, Vec::new(), Vec::new());
            assert(reach_view(out).4 =~= Seq::<SrPolicyModel>::empty());
            assert(reach_view(out).5 =~= Seq::<RtcModel>::empty());
            Ok(out)
        },
        Safi::Flowspec | Safi::FlowspecVpn => {
            let fs: Vec<FlowspecNlri> = match decode_flowspec_nlri(rem, v6) {
                Ok(v) => v,
                Err(_) => Vec::new(),
            };
            assert(nlris_view(fs@) =~= or_empty(spec_decode_flowspec(rem@, v6)->0));
            let mp = empty_reach(afi_safi, next_hops);
            let out: ReachParts = (mp, None, Some(fs), None, Vec::new(), Vec::new());
            assert(reach_view(out).4 =~= Seq::<SrPolicyModel>::empty());
            assert(reach_view(out).5 =~= Seq::<RtcModel>::empty());
            Ok(out)
        },
        Safi::BgpLs | Safi::BgpLsSrv6 => {
            let next_hop: Option<IpAddress> = if next_hops.len() > 0 {
                Some(next_hops[0])
            } else {
                None
            };
            let ls = match decode_bgpls_reach(next_hop, rem) {
                Ok(v) => v,
                Err(_) => BgpLsReachNlri { next_hop, nlris: Vec::new() },
            };
            assert(ls_nlris_view(ls.nlris@) =~= or_empty(spec_ls_nlris(rem@)->0));
            let mp = empty_reach(afi_safi, next_hops);
            let out: ReachParts = (mp, None, None, Some(ls), Vec::new(), Vec::new());
            assert(reach_view(out).4 =~= Seq::<SrPolicyModel>::empty());
            assert(reach_view(out).5 =~= Seq::<RtcModel>::empty());
            Ok(out)
        },
        Safi::Vpls => {
            let _vpls = decode_vpls_nlri(rem);
            let mp = empty_reach(afi_safi, next_hops);
            let out: ReachParts = (mp, None, None, None, Vec::new(), Vec::new());
            assert(reach_view(out).4 =~= Seq::<SrPolicyModel>::empty());
            assert(reach_view(out).5 =~= Seq::<RtcModel>::empty());
            Ok(out)
        },
        Safi::SrPolicy => {
            let nlris: Vec<SrPolicyNlri> = match decode_srpolicy_nlri(rem, v6) {
                Ok(v) => v,
                Err(_) => Vec::new(),
            };
            let mp = empty_reach(afi_safi, next_hops);
            let out: ReachParts = (mp, None, None, None, nlris, Vec::new());
            assert(reach_view(out).5 =~= Seq::<RtcModel>::empty());
            Ok(out)
        },
        Safi::RouteTargetConstraint => {
            let rtcs: Vec<RtcNlri> = match decode_rtc_nlri(rem) {
                Ok(v) => v,
                Err(_) => Vec::new(),
            };
            assert(rtcs_view(rtcs@) =~= or_empty(spec_rtc_from(rem@, 0, Seq::empty())));
            let mp = empty_reach(afi_safi, next_hops);
            let out: ReachParts = (mp, None, None, None, Vec::new(), rtcs);
            assert(reach_view(out).4 =~= Seq::<SrPolicyModel>::empty());
            Ok(out)
        },
        Safi::Unicast | Safi::Multicast => {
            let p = match decode_nlri(rem, afi_safi.afi) {
                Ok(p) => p,
                Err(e) => {
                    return Err(e);
                },
            };
            let out: ReachParts = (
                MpReachNlri { afi_safi, next_hops, prefixes: p },
                None,
                None,
                None,
                Vec::new(),
                Vec::new(),
            );
            assert(reach_view(out).4 =~= Seq::<SrPolicyModel>::empty());
            assert(reach_view(out).5 =~= Seq::<RtcModel>::empty());
            Ok(out)
        },
        Safi::LabeledUnicast => {
            let p = match decode_labeled_nlri(rem, afi_safi.afi) {
                Ok(p) => p,
                Err(e) => {
                    return Err(e);
                },
            };
            let out: ReachParts = (
                MpReachNlri { afi_safi, next_hops, prefixes: p },
                None,
                None,
                None,
                Vec::new(),
                Vec::new(),
            );
            assert(reach_view(out).4 =~= Seq::<SrPolicyModel>::empty());
            assert(reach_view(out).5 =~= Seq::<RtcModel>::empty());
            Ok(out)
        },
        Safi::MplsVpn => {
            let p = match decode_vpn_nlri(rem, afi_safi.afi) {
                Ok(p) => p,
                Err(e) => {
                    return Err(e);
                },
            };
            let out: ReachParts = (
                MpReachNlri { afi_safi, next_hops, prefixes: p },
                None,
                None,
                None,
                Vec::new(),
                Vec::new(),
            );
            assert(reach_view(out).4 =~= Seq::<SrPolicyModel>::empty());
            assert(reach_view(out).5 =~= Seq::<RtcModel>::empty());
            Ok(out)
        },
        _ => {
            let mp = empty_reach(afi_safi, next_hops);
            let out: ReachParts = (mp, None, None, None, Vec::new(), Vec::new());
            assert(reach_view(out).4 =~= Seq::<SrPolicyModel>::empty());
            assert(reach_view(out).5 =~= Seq::<RtcModel>::empty());
            Ok(out)
        },
    }
}

/// What MP_UNREACH_NLRI yields: the attribute itself, then EVPN routes,
/// Flowspec NLRIs, BGP-LS NLRIs, SR Policy NLRIs (when that SAFI) and RTC
/// NLRIs.
pub type UnreachModel = (
    MpUnreachModel,
    Option<Seq<EvpnModel>>,
    Option<Seq<FlowspecNlriModel>>,
    Option<Seq<LsNlriModel>>,
    Option<Seq<SrPolicyModel>>,
    Seq<RtcModel>,
);

pub type UnreachParts = (
    MpUnreachNlri,
    Option<EvpnUnreachNlri>,
    Option<Vec<FlowspecNlri>>,
    Option<BgpLsUnreachNlri>,
    Option<Vec<SrPolicyNlri>>,
    Vec<RtcNlri>,
);

pub open spec fn unreach_view(r: UnreachParts) -> UnreachModel {
    (
        r.0@,
        match r.1 {
            Some(e) => Some(routes_view(e.routes@)),
            None => None,
        },
        match r.2 {
            Some(f) => Some(nlris_view(f@)),
            None => None,
        },
        match r.3 {
            Some(l) => Some(ls_nlris_view(l.nlris@)),
            None => None,
        },
        match r.4 {
            Some(v) => Some(policies_view(v@)),
            None => None,
        },
        rtcs_view(r.5@),
    )
}

#[verifier::opaque]
/// MP_UNREACH_NLRI decoded from its value `s`: AFI(2) + SAFI(1) + withdrawn
/// NLRI, decoded by SAFI. None where a decoder would panic.
pub open spec fn spec_mp_unreach(s: Seq<u8>) -> Option<Result<UnreachModel, ErrorModel>> {
    if s.len() < 3 {
        Some(Err(eof(3, s.len() as int)))
    } else {
        let fam = afi_safi_of(be16_at(s, 0) as u16, s[2]);
        let rem = s.skip(3);
        let v6 = fam.afi == Afi::Ipv6;
        let plain = MpUnreachModel { afi_safi: fam, prefixes: Seq::empty() };
        match fam.safi {
            Safi::Evpn => Some(
                Ok(
                    (
                        plain,
                        Some(or_empty(spec_evpn_from(rem, Seq::empty()))),
                        None,
                        None,
                        None,
                        Seq::empty(),
                    ),
                ),
            ),
            Safi::Flowspec | Safi::FlowspecVpn => match spec_decode_flowspec(rem, v6) {
                None => None,
                Some(r) => Some(Ok((plain, None, Some(or_empty(r)), None, None, Seq::empty()))),
            },
            Safi::BgpLs => match spec_ls_nlris(rem) {
                None => None,
                Some(r) => Some(Ok((plain, None, None, Some(or_empty(r)), None, Seq::empty()))),
            },
            Safi::SrPolicy => Some(
                Ok((plain, None, None, None, Some(spec_srpolicy_nlri(rem, v6)), Seq::empty())),
            ),
            Safi::RouteTargetConstraint => Some(
                Ok((plain, None, None, None, None, or_empty(spec_rtc_from(rem, 0, Seq::empty())))),
            ),
            Safi::Unicast | Safi::Multicast => match spec_nlri(rem, fam.afi) {
                Err(e) => Some(Err(e)),
                Ok(p) => Some(Ok((MpUnreachModel { prefixes: p, ..plain }, None, None, None, None, Seq::empty()))),
            },
            Safi::LabeledUnicast => match spec_labeled_nlri(rem, fam.afi) {
                None => None,
                Some(Err(e)) => Some(Err(e)),
                Some(Ok(p)) => Some(
                    Ok((MpUnreachModel { prefixes: p, ..plain }, None, None, None, None, Seq::empty())),
                ),
            },
            Safi::MplsVpn => match spec_vpn_nlri(rem, fam.afi) {
                None => None,
                Some(Err(e)) => Some(Err(e)),
                Some(Ok(p)) => Some(
                    Ok((MpUnreachModel { prefixes: p, ..plain }, None, None, None, None, Seq::empty())),
                ),
            },
            _ => Some(Ok((plain, None, None, None, None, Seq::empty()))),
        }
    }
}

fn empty_unreach(afi_safi: AfiSafi) -> (r: MpUnreachNlri)
    ensures
        r@ == (MpUnreachModel { afi_safi, prefixes: Seq::empty() }),
{
    let prefixes: Vec<Prefix> = Vec::new();
    let r = MpUnreachNlri { afi_safi, prefixes };
    assert(r@.prefixes =~= Seq::<PrefixModel>::empty());
    r
}

/// Decodes an MP_UNREACH_NLRI attribute value.
#[verifier::rlimit(60)]
pub fn parse_mp_unreach(buf: &[u8]) -> (r: Result<UnreachParts, Error>)
    requires
        spec_mp_unreach(buf@) is Some,
        buf.len() <= isize::MAX,
    ensures
        match r {
            Ok(p) => spec_mp_unreach(buf@) == Some(Ok::<UnreachModel, ErrorModel>(unreach_view(p))),
            Err(e) => spec_mp_unreach(buf@) == Some(Err::<UnreachModel, ErrorModel>(e@)),
        },
{
    reveal(spec_mp_unreach);
    if buf.len() < 3 {
        return Err(Error::UnexpectedEof { needed: 3, have: buf.len() });
    }
    let afi_code = read_u16(buf, 0);
    let afi_safi = AfiSafi::new(afi_code, buf[2]);
    let remaining = copy_range(buf, 3, buf.len() - 3);
    assert(remaining@ =~= buf@.skip(3));
    let rem = remaining.as_slice();
    let v6 = match afi_safi.afi {
        Afi::Ipv6 => true,
        _ => false,
    };
    match afi_safi.safi {
        Safi::Evpn => {
            let routes: Vec<EvpnRoute> = match decode_evpn_nlri(rem) {
                Ok(v) => v,
                Err(_) => Vec::new(),
            };
            assert(routes_view(routes@) == or_empty(spec_evpn_from(rem@, Seq::empty())));
            let out: UnreachParts = (empty_unreach(afi_safi), Some(EvpnUnreachNlri { routes }), None, None, None, Vec::new());
            assert(unreach_view(out).5 =~= Seq::<RtcModel>::empty());
            Ok(out)
        },
        Safi::Flowspec | Safi::FlowspecVpn => {
            let fs: Vec<FlowspecNlri> = match decode_flowspec_nlri(rem, v6) {
                Ok(v) => v,
                Err(_) => Vec::new(),
            };
            assert(nlris_view(fs@) =~= or_empty(spec_decode_flowspec(rem@, v6)->0));
            let out: UnreachParts = (empty_unreach(afi_safi), None, Some(fs), None, None, Vec::new());
            assert(unreach_view(out).5 =~= Seq::<RtcModel>::empty());
            Ok(out)
        },
        Safi::BgpLs => {
            let ls = match decode_bgpls_unreach(rem) {
                Ok(v) => v,
                Err(_) => BgpLsUnreachNlri { nlris: Vec::new() },
            };
            assert(ls_nlris_view(ls.nlris@) =~= or_empty(spec_ls_nlris(rem@)->0));
            let out: UnreachParts = (empty_unreach(afi_safi), None, None, Some(ls), None, Vec::new());
            assert(unreach_view(out).5 =~= Seq::<RtcModel>::empty());
            Ok(out)
        },
        Safi::SrPolicy => {
            let nlris: Vec<SrPolicyNlri> = match decode_srpolicy_nlri(rem, v6) {
                Ok(v) => v,
                Err(_) => Vec::new(),
            };
            let out: UnreachParts = (empty_unreach(afi_safi), None, None, None, Some(nlris), Vec::new());
            assert(unreach_view(out).5 =~= Seq::<RtcModel>::empty());
            Ok(out)
        },
        Safi::RouteTargetConstraint => {
            let rtcs: Vec<RtcNlri> = match decode_rtc_nlri(rem) {
                Ok(v) => v,
                Err(_) => Vec::new(),
            };
            assert(rtcs_view(rtcs@) =~= or_empty(spec_rtc_from(rem@, 0, Seq::empty())));
            Ok((empty_unreach(afi_safi), None, None, None, None, rtcs))
        },
        Safi::Unicast | Safi::Multicast => {
            let p = match decode_nlri(rem, afi_safi.afi) {
                Ok(p) => p,
                Err(e) => {
                    return Err(e);
                },
            };
            let out: UnreachParts = (MpUnreachNlri { afi_safi, prefixes: p }, None, None, None, None, Vec::new());
            assert(unreach_view(out).5 =~= Seq::<RtcModel>::empty());
            Ok(out)
        },
        Safi::LabeledUnicast => {
            let p = match decode_labeled_nlri(rem, afi_safi.afi) {
                Ok(p) => p,
                Err(e) => {
                    return Err(e);
                },
            };
            let out: UnreachParts = (MpUnreachNlri { afi_safi, prefixes: p }, None, None, None, None, Vec::new());
            assert(unreach_view(out).5 =~= Seq::<RtcModel>::empty());
            Ok(out)
        },
        Safi::MplsVpn => {
            let p = match decode_vpn_nlri(rem, afi_safi.afi) {
                Ok(p) => p,
                Err(e) => {
                    return Err(e);
                },
            };
            let out: UnreachParts = (MpUnreachNlri { afi_safi, prefixes: p }, None, None, None, None, Vec::new());
            assert(unreach_view(out).5 =~= Seq::<RtcModel>::empty());
            Ok(out)
        },
        _ => {
            let out: UnreachParts = (empty_unreach(afi_safi), None, None, None, None, Vec::new());
            assert(unreach_view(out).5 =~= Seq::<RtcModel>::empty());
            Ok(out)
        },
    }
}

} // verus!
