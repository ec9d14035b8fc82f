//! EVPN NLRI (RFC 7432 and extensions; AFI 25, SAFI 70).

use vstd::prelude::*;
use vstd::string::StringExecFns;
use crate::error::{Error, ErrorModel, eof, res_view};
use crate::net::{IpAddress, IpModel};
use crate::text::{dec, push_dec};
use crate::wire::{be24_at, be32_at, read_u24, read_u32, read_array4, read_array8, read_array16, copy_range};

verus! {

/// An EVPN route.
#[derive(Clone, Debug, PartialEq, Eq)]
pub enum EvpnRoute {
    /// Type 1: Ethernet Auto-Discovery.
    EthernetAutoDiscovery { rd: [u8; 8], esi: [u8; 10], ethernet_tag: u32, mpls_label: u32 },
    /// Type 2: MAC/IP Advertisement.
    MacIpAdvertisement {
        rd: [u8; 8],
        esi: [u8; 10],
        ethernet_tag: u32,
        mac: [u8; 6],
        ip: Option<IpAddress>,
        mpls_label1: u32,
        mpls_label2: Option<u32>,
    },
    /// Type 3: Inclusive Multicast Ethernet Tag.
    InclusiveMulticastEthernetTag { rd: [u8; 8], ethernet_tag: u32, originating_router_ip: IpAddress },
    /// Type 4: Ethernet Segment.
    EthernetSegment { rd: [u8; 8], esi: [u8; 10], originating_router_ip: IpAddress },
    /// Type 5: IP Prefix (RFC 9136).
    IpPrefix {
        rd: [u8; 8],
        esi: [u8; 10],
        ethernet_tag: u32,
        prefix: IpAddress,
        prefix_len: u8,
        gw_ip: Option<IpAddress>,
        mpls_label: u32,
    },
    /// Type 6: Selective Multicast Ethernet Tag.
    SelectiveMulticastEthernetTag {
        rd: [u8; 8],
        ethernet_tag: u32,
        multicast_source: IpAddress,
        multicast_group: IpAddress,
        originating_router_ip: IpAddress,
    },
    /// Type 7: IGMP Join Synch.
    IgmpJoinSynch {
        rd: [u8; 8],
        ethernet_tag: u32,
        multicast_source: IpAddress,
        multicast_group: IpAddress,
        originating_router_ip: IpAddress,
    },
    /// Type 8: IGMP Leave Synch.
    IgmpLeaveSynch {
        rd: [u8; 8],
        ethernet_tag: u32,
        multicast_source: IpAddress,
        multicast_group: IpAddress,
        originating_router_ip: IpAddress,
    },
    /// Type 9: Per-Region I-PMSI A-D.
    PerRegionIPmsi { rd: [u8; 8], ethernet_tag: u32, originating_router_ip: IpAddress },
    /// Type 10: S-PMSI A-D.
    SPmsi {
        rd: [u8; 8],
        ethernet_tag: u32,
        multicast_source: IpAddress,
        multicast_group: IpAddress,
        originating_router_ip: IpAddress,
    },
    /// Type 11: Leaf A-D.
    LeafAD { route_key: Vec<u8>, path_id: u32 },
    /// Any other route type, kept raw.
    Unknown { route_type: u8, data: Vec<u8> },
}

/// Model of an [`EvpnRoute`]: byte arrays as sequences, addresses by model.
pub enum EvpnModel {
    EthernetAutoDiscovery { rd: Seq<u8>, esi: Seq<u8>, ethernet_tag: u32, mpls_label: u32 },
    MacIpAdvertisement {
        rd: Seq<u8>,
        esi: Seq<u8>,
        ethernet_tag: u32,
        mac: Seq<u8>,
        ip: Option<IpModel>,
        mpls_label1: u32,
        mpls_label2: Option<u32>,
    },
    InclusiveMulticastEthernetTag { rd: Seq<u8>, ethernet_tag: u32, originating_router_ip: IpModel },
    EthernetSegment { rd: Seq<u8>, esi: Seq<u8>, originating_router_ip: IpModel },
    IpPrefix {
        rd: Seq<u8>,
        esi: Seq<u8>,
        ethernet_tag: u32,
        prefix: IpModel,
        prefix_len: u8,
        gw_ip: Option<IpModel>,
        mpls_label: u32,
    },
    SelectiveMulticastEthernetTag {
        rd: Seq<u8>,
        ethernet_tag: u32,
        multicast_source: IpModel,
        multicast_group: IpModel,
        originating_router_ip: IpModel,
    },
    IgmpJoinSynch {
        rd: Seq<u8>,
        ethernet_tag: u32,
        multicast_source: IpModel,
        multicast_group: IpModel,
        originating_router_ip: IpModel,
    },
    IgmpLeaveSynch {
        rd: Seq<u8>,
        ethernet_tag: u32,
        multicast_source: IpModel,
        multicast_group: IpModel,
        originating_router_ip: IpModel,
    },
    PerRegionIPmsi { rd: Seq<u8>, ethernet_tag: u32, originating_router_ip: IpModel },
    SPmsi {
        rd: Seq<u8>,
        ethernet_tag: u32,
        multicast_source: IpModel,
        multicast_group: IpModel,
        originating_router_ip: IpModel,
    },
    LeafAD { route_key: Seq<u8>, path_id: u32 },
    Unknown { route_type: u8, data: Seq<u8> },
}

pub open spec fn opt_ip_view(o: Option<IpAddress>) -> Option<IpModel> {
    match o {
        Some(a) => Some(a@),
        None => None,
    }
}

impl View for EvpnRoute {
    type V = EvpnModel;

    open spec fn view(&self) -> EvpnModel {
        match *self {
            EvpnRoute::EthernetAutoDiscovery { rd, esi, ethernet_tag, mpls_label } =>
                EvpnModel::EthernetAutoDiscovery { rd: rd@, esi: esi@, ethernet_tag, mpls_label },
            EvpnRoute::MacIpAdvertisement {
                rd,
                esi,
                ethernet_tag,
                mac,
                ip,
                mpls_label1,
                mpls_label2,
            } => EvpnModel::MacIpAdvertisement {
                rd: rd@,
                esi: esi@,
                ethernet_tag,
                mac: mac@,
                ip: opt_ip_view(ip),
                mpls_label1,
                mpls_label2,
            },
            EvpnRoute::InclusiveMulticastEthernetTag { rd, ethernet_tag, originating_router_ip } =>
                EvpnModel::InclusiveMulticastEthernetTag {
                rd: rd@,
                ethernet_tag,
                originating_router_ip: originating_router_ip@,
            },
            EvpnRoute::EthernetSegment { rd, esi, originating_router_ip } =>
                EvpnModel::EthernetSegment {
                rd: rd@,
                esi: esi@,
                originating_router_ip: originating_router_ip@,
            },
            EvpnRoute::IpPrefix {
                rd,
                esi,
                ethernet_tag,
                prefix,
                prefix_len,
                gw_ip,
                mpls_label,
            } => EvpnModel::IpPrefix {
                rd: rd@,
                esi: esi@,
                ethernet_tag,
                prefix: prefix@,
                prefix_len,
                gw_ip: opt_ip_view(gw_ip),
                mpls_label,
            },
            EvpnRoute::SelectiveMulticastEthernetTag {
                rd,
                ethernet_tag,
                multicast_source,
                multicast_group,
                originating_router_ip,
            } => EvpnModel::SelectiveMulticastEthernetTag {
                rd: rd@,
                ethernet_tag,
                multicast_source: multicast_source@,
                multicast_group: multicast_group@,
                originating_router_ip: originating_router_ip@,
            },
            EvpnRoute::IgmpJoinSynch {
                rd,
                ethernet_tag,
                multicast_source,
                multicast_group,
                originating_router_ip,
            } => EvpnModel::IgmpJoinSynch {
                rd: rd@,
                ethernet_tag,
                multicast_source: multicast_source@,
                multicast_group: multicast_group@,
                originating_router_ip: originating_router_ip@,
            },
            EvpnRoute::IgmpLeaveSynch {
                rd,
                ethernet_tag,
                multicast_source,
                multicast_group,
                originating_router_ip,
            } => EvpnModel::IgmpLeaveSynch {
                rd: rd@,
                ethernet_tag,
                multicast_source: multicast_source@,
                multicast_group: multicast_group@,
                originating_router_ip: originating_router_ip@,
            },
            EvpnRoute::PerRegionIPmsi { rd, ethernet_tag, originating_router_ip } =>
                EvpnModel::PerRegionIPmsi {
                rd: rd@,
                ethernet_tag,
                originating_router_ip: originating_router_ip@,
            },
            EvpnRoute::SPmsi {
                rd,
                ethernet_tag,
                multicast_source,
                multicast_group,
                originating_router_ip,
            } => EvpnModel::SPmsi {
                rd: rd@,
                ethernet_tag,
                multicast_source: multicast_source@,
                multicast_group: multicast_group@,
                originating_router_ip: originating_router_ip@,
            },
            EvpnRoute::LeafAD { route_key, path_id } => EvpnModel::LeafAD {
                route_key: route_key@,
                path_id,
            },
            EvpnRoute::Unknown { route_type, data } => EvpnModel::Unknown {
                route_type,
                data: data@,
            },
        }
    }
}

/// Route type code of a model.
pub open spec fn evpn_type_code(m: EvpnModel) -> u8 {
    match m {
        EvpnModel::EthernetAutoDiscovery { .. } => 1,
        EvpnModel::MacIpAdvertisement { .. } => 2,
        EvpnModel::InclusiveMulticastEthernetTag { .. } => 3,
        EvpnModel::EthernetSegment { .. } => 4,
        EvpnModel::IpPrefix { .. } => 5,
        EvpnModel::SelectiveMulticastEthernetTag { .. } => 6,
        EvpnModel::IgmpJoinSynch { .. } => 7,
        EvpnModel::IgmpLeaveSynch { .. } => 8,
        EvpnModel::PerRegionIPmsi { .. } => 9,
        EvpnModel::SPmsi { .. } => 10,
        EvpnModel::LeafAD { .. } => 11,
        EvpnModel::Unknown { route_type, .. } => route_type,
    }
}

/// Route type name of a model.
pub open spec fn evpn_type_name(m: EvpnModel) -> Seq<char> {
    match m {
        EvpnModel::EthernetAutoDiscovery { .. } => "ethernet-auto-discovery"@,
        EvpnModel::MacIpAdvertisement { .. } => "mac-ip-advertisement"@,
        EvpnModel::InclusiveMulticastEthernetTag { .. } => "inclusive-multicast-ethernet-tag"@,
        EvpnModel::EthernetSegment { .. } => "ethernet-segment"@,
        EvpnModel::IpPrefix { .. } => "ip-prefix"@,
        EvpnModel::SelectiveMulticastEthernetTag { .. } => "selective-multicast-ethernet-tag"@,
        EvpnModel::IgmpJoinSynch { .. } => "igmp-join-synch"@,
        EvpnModel::IgmpLeaveSynch { .. } => "igmp-leave-synch"@,
        EvpnModel::PerRegionIPmsi { .. } => "per-region-i-pmsi"@,
        EvpnModel::SPmsi { .. } => "s-pmsi"@,
        EvpnModel::LeafAD { .. } => "leaf-ad"@,
        EvpnModel::Unknown { .. } => "unknown"@,
    }
}

impl EvpnRoute {
    /// Name of the route type.
    pub fn route_type_name(&self) -> (r: &'static str)
        ensures
            r@ == evpn_type_name(self@),
    {
        match self {
            EvpnRoute::EthernetAutoDiscovery { .. } => "ethernet-auto-discovery",
            EvpnRoute::MacIpAdvertisement { .. } => "mac-ip-advertisement",
            EvpnRoute::InclusiveMulticastEthernetTag { .. } => "inclusive-multicast-ethernet-tag",
            EvpnRoute::EthernetSegment { .. } => "ethernet-segment",
            EvpnRoute::IpPrefix { .. } => "ip-prefix",
            EvpnRoute::SelectiveMulticastEthernetTag { .. } => "selective-multicast-ethernet-tag",
            EvpnRoute::IgmpJoinSynch { .. } => "igmp-join-synch",
            EvpnRoute::IgmpLeaveSynch { .. } => "igmp-leave-synch",
            EvpnRoute::PerRegionIPmsi { .. } => "per-region-i-pmsi",
            EvpnRoute::SPmsi { .. } => "s-pmsi",
            EvpnRoute::LeafAD { .. } => "leaf-ad",
            EvpnRoute::Unknown { .. } => "unknown",
        }
    }

    /// Numeric route type (the wire code; for unknown routes the code read).
    pub fn route_type_code(&self) -> (r: u8)
        ensures
            r == evpn_type_code(self@),
    {
        match self {
            EvpnRoute::EthernetAutoDiscovery { .. } => 1,
            EvpnRoute::MacIpAdvertisement { .. } => 2,
            EvpnRoute::InclusiveMulticastEthernetTag { .. } => 3,
            EvpnRoute::EthernetSegment { .. } => 4,
            EvpnRoute::IpPrefix { .. } => 5,
            EvpnRoute::SelectiveMulticastEthernetTag { .. } => 6,
            EvpnRoute::IgmpJoinSynch { .. } => 7,
            EvpnRoute::IgmpLeaveSynch { .. } => 8,
            EvpnRoute::PerRegionIPmsi { .. } => 9,
            EvpnRoute::SPmsi { .. } => 10,
            EvpnRoute::LeafAD { .. } => 11,
            EvpnRoute::Unknown { route_type, .. } => *route_type,
        }
    }
}

/// MPLS label of the 3-byte label field at `i`: its top 20 bits.
pub open spec fn mpls_label_at(s: Seq<u8>, i: int) -> u32 {
    (be24_at(s, i) / 16) as u32
}

fn decode_mpls_label(b: &[u8], pos: usize) -> (r: u32)
    requires
        pos + 3 <= b.len(),
    ensures
        r == mpls_label_at(b@, pos as int),
{
    read_u24(b, pos) / 16
}

/// An originating-router address of `ip_len` bits (32 or 128) at the start
/// of `s`.
pub open spec fn spec_router_ip(ip_len: u8, s: Seq<u8>) -> Result<IpModel, ErrorModel> {
    if ip_len == 32 {
        if s.len() < 4 {
            Err(eof(4, s.len() as int))
        } else {
            Ok(IpModel::V4(s.subrange(0, 4)))
        }
    } else if ip_len == 128 {
        if s.len() < 16 {
            Err(eof(16, s.len() as int))
        } else {
            Ok(IpModel::V6(s.subrange(0, 16)))
        }
    } else {
        Err(
            ErrorModel::BgpParse(
                "EVPN originator IP length "@ + dec(ip_len as nat) + " not 32 or 128"@,
            ),
        )
    }
}

/// Decodes an address of `ip_len` bits at offset `pos` of `buf`.
fn decode_evpn_router_ip(ip_len: u8, buf: &[u8], pos: usize) -> (r: Result<IpAddress, Error>)
    requires
        pos <= buf.len(),
    ensures
        res_view(r) == spec_router_ip(ip_len, buf@.skip(pos as int)),
{
    let have: usize = buf.len() - pos;
    if ip_len == 32 {
        if have < 4 {
            return Err(Error::UnexpectedEof { needed: 4, have });
        }
        let a = read_array4(buf, pos);
        assert(a@ =~= buf@.skip(pos as int).subrange(0, 4));
        Ok(IpAddress::V4(a))
    } else if ip_len == 128 {
        if have < 16 {
            return Err(Error::UnexpectedEof { needed: 16, have });
        }
        let a = read_array16(buf, pos);
        assert(a@ =~= buf@.skip(pos as int).subrange(0, 16));
        Ok(IpAddress::V6(a))
    } else {
        let mut m = String::from_str("EVPN originator IP length ");
        push_dec(&mut m, ip_len as u64);
        m.append(" not 32 or 128");
        assert(m@ =~= "EVPN originator IP length "@ + dec(ip_len as nat) + " not 32 or 128"@);
        Err(Error::BgpParse(m))
    }
}

/// Width in bytes of an address whose length byte decoded: 4 for 32 bits,
/// 16 otherwise.
pub open spec fn ip_width(ip_len: u8) -> int {
    if ip_len == 32 {
        4
    } else {
        16
    }
}

/// The three addresses of a multicast route body `v` (at least 13 bytes):
/// source, group and originating router, each a length byte then the
/// address, starting at byte 12.
pub open spec fn spec_mcast_ips(v: Seq<u8>) -> Result<(IpModel, IpModel, IpModel), ErrorModel> {
    let sl = v[12];
    match spec_router_ip(sl, v.skip(13)) {
        Err(e) => Err(e),
        Ok(src) => {
            let p2 = 13 + ip_width(sl);
            if p2 >= v.len() {
                Err(eof(p2 + 1, v.len() as int))
            } else {
                let gl = v[p2];
                match spec_router_ip(gl, v.skip(p2 + 1)) {
                    Err(e) => Err(e),
                    Ok(grp) => {
                        let p3 = p2 + 1 + ip_width(gl);
                        if p3 >= v.len() {
                            Err(eof(p3 + 1, v.len() as int))
                        } else {
                            match spec_router_ip(v[p3], v.skip(p3 + 1)) {
                                Err(e) => Err(e),
                                Ok(orig) => Ok((src, grp, orig)),
                            }
                        }
                    },
                }
            }
        },
    }
}

fn decode_mcast_ips(v: &[u8]) -> (r: Result<(IpAddress, IpAddress, IpAddress), Error>)
    requires
        v.len() >= 13,
    ensures
        match r {
            Ok((a, b, c)) => spec_mcast_ips(v@) == Ok::<(IpModel, IpModel, IpModel), ErrorModel>(
                (a@, b@, c@),
            ),
            Err(e) => spec_mcast_ips(v@) == Err::<(IpModel, IpModel, IpModel), ErrorModel>(e@),
        },
{
    let sl = v[12];
    let src = match decode_evpn_router_ip(sl, v, 13) {
        Err(e) => {
            return Err(e);
        },
        Ok(a) => a,
    };
    let p2: usize = 13 + if sl == 32 {
        4
    } else {
        16
    };
    if p2 >= v.len() {
        return Err(Error::UnexpectedEof { needed: p2 + 1, have: v.len() });
    }
    let gl = v[p2];
    let grp = match decode_evpn_router_ip(gl, v, p2 + 1) {
        Err(e) => {
            return Err(e);
        },
        Ok(a) => a,
    };
    let p3: usize = p2 + 1 + if gl == 32 {
        4
    } else {
        16
    };
    if p3 >= v.len() {
        return Err(Error::UnexpectedEof { needed: p3 + 1, have: v.len() });
    }
    let orig = match decode_evpn_router_ip(v[p3], v, p3 + 1) {
        Err(e) => {
            return Err(e);
        },
        Ok(a) => a,
    };
    Ok((src, grp, orig))
}

/// Route of type `t` decoded from its value `v`.
pub open spec fn spec_evpn_route(t: u8, v: Seq<u8>) -> Result<EvpnModel, ErrorModel> {
    let rd = v.subrange(0, 8);
    if t == 1 {
        if v.len() < 25 {
            Err(eof(25, v.len() as int))
        } else {
            Ok(
                EvpnModel::EthernetAutoDiscovery {
                    rd,
                    esi: v.subrange(8, 18),
                    ethernet_tag: be32_at(v, 18) as u32,
                    mpls_label: mpls_label_at(v, 22),
                },
            )
        }
    } else if t == 2 {
        if v.len() < 33 {
            Err(eof(33, v.len() as int))
        } else if v[22] != 48 {
            Err(
                ErrorModel::BgpParse(
                    "EVPN type2 mac_len="@ + dec(v[22] as nat) + ", expected 48"@,
                ),
            )
        } else {
            let ip_len = v[29];
            if ip_len != 0 && ip_len != 32 && ip_len != 128 {
                Err(ErrorModel::BgpParse("EVPN type2 ip_len="@ + dec(ip_len as nat)))
            } else {
                let w: int = if ip_len == 0 {
                    0
                } else if ip_len == 32 {
                    4
                } else {
                    16
                };
                if v.len() < 30 + w {
                    Err(eof(30 + w, v.len() as int))
                } else if v.len() < 30 + w + 3 {
                    Err(eof(30 + w + 3, v.len() as int))
                } else {
                    let p = 30 + w;
                    Ok(
                        EvpnModel::MacIpAdvertisement {
                            rd,
                            esi: v.subrange(8, 18),
                            ethernet_tag: be32_at(v, 18) as u32,
                            mac: v.subrange(23, 29),
                            ip: if ip_len == 0 {
                                None
                            } else if ip_len == 32 {
                                Some(IpModel::V4(v.subrange(30, 34)))
                            } else {
                                Some(IpModel::V6(v.subrange(30, 46)))
                            },
                            mpls_label1: mpls_label_at(v, p),
                            mpls_label2: if v.len() >= p + 6 {
                                Some(mpls_label_at(v, p + 3))
                            } else {
                                None
                            },
                        },
                    )
                }
            }
        }
    } else if t == 3 || t == 9 {
        if v.len() < 13 {
            Err(eof(13, v.len() as int))
        } else {
            match spec_router_ip(v[12], v.skip(13)) {
                Err(e) => Err(e),
                Ok(ip) => if t == 3 {
                    Ok(
                        EvpnModel::InclusiveMulticastEthernetTag {
                            rd,
                            ethernet_tag: be32_at(v, 8) as u32,
                            originating_router_ip: ip,
                        },
                    )
                } else {
                    Ok(
                        EvpnModel::PerRegionIPmsi {
                            rd,
                            ethernet_tag: be32_at(v, 8) as u32,
                            originating_router_ip: ip,
                        },
                    )
                },
            }
        }
    } else if t == 4 {
        if v.len() < 19 {
            Err(eof(19, v.len() as int))
        } else {
            match spec_router_ip(v[18], v.skip(19)) {
                Err(e) => Err(e),
                Ok(ip) => Ok(
                    EvpnModel::EthernetSegment { rd, esi: v.subrange(8, 18), originating_router_ip: ip },
                ),
            }
        }
    } else if t == 5 {
        if v.len() < 34 {
            Err(eof(34, v.len() as int))
        } else {
            let pl = v[22];
            let w: int = if pl <= 32 {
                4
            } else {
                16
            };
            if v.len() < 23 + w * 2 + 3 {
                Err(eof(23 + w * 2 + 3, v.len() as int))
            } else {
                let gw = v.subrange(23 + w, 23 + 2 * w);
                Ok(
                    EvpnModel::IpPrefix {
                        rd,
                        esi: v.subrange(8, 18),
                        ethernet_tag: be32_at(v, 18) as u32,
                        prefix: if w == 4 {
                            IpModel::V4(v.subrange(23, 27))
                        } else {
                            IpModel::V6(v.subrange(23, 39))
                        },
                        prefix_len: pl,
                        gw_ip: if all_zero_seq(gw) {
                            None
                        } else if w == 4 {
                            Some(IpModel::V4(gw))
                        } else {
                            Some(IpModel::V6(gw))
                        },
                        mpls_label: mpls_label_at(v, 23 + 2 * w),
                    },
                )
            }
        }
    } else if (6 <= t <= 8) || t == 10 {
        if v.len() < 13 {
            Err(eof(13, v.len() as int))
        } else {
            match spec_mcast_ips(v) {
                Err(e) => Err(e),
                Ok((src, grp, orig)) => {
                    let tag = be32_at(v, 8) as u32;
                    if t == 6 {
                        Ok(
                            EvpnModel::SelectiveMulticastEthernetTag {
                                rd,
                                ethernet_tag: tag,
                                multicast_source: src,
                                multicast_group: grp,
                                originating_router_ip: orig,
                            },
                        )
                    } else if t == 7 {
                        Ok(
                            EvpnModel::IgmpJoinSynch {
                                rd,
                                ethernet_tag: tag,
                                multicast_source: src,
                                multicast_group: grp,
                                originating_router_ip: orig,
                            },
                        )
                    } else if t == 8 {
                        Ok(
                            EvpnModel::IgmpLeaveSynch {
                                rd,
                                ethernet_tag: tag,
                                multicast_source: src,
                                multicast_group: grp,
                                originating_router_ip: orig,
                            },
                        )
                    } else {
                        Ok(
                            EvpnModel::SPmsi {
                                rd,
                                ethernet_tag: tag,
                                multicast_source: src,
                                multicast_group: grp,
                                originating_router_ip: orig,
                            },
                        )
                    }
                },
            }
        }
    } else if t == 11 {
        if v.len() < 4 {
            Err(eof(4, v.len() as int))
        } else {
            Ok(
                EvpnModel::LeafAD {
                    route_key: v.subrange(0, v.len() - 4),
                    path_id: be32_at(v, v.len() - 4) as u32,
                },
            )
        }
    } else {
        Ok(EvpnModel::Unknown { route_type: t, data: v })
    }
}

/// Every byte of `s` is zero.
pub open spec fn all_zero_seq(s: Seq<u8>) -> bool {
    forall|i: int| 0 <= i < s.len() ==> #[trigger] s[i] == 0
}

fn all_zero(v: &[u8], lo: usize, n: usize) -> (r: bool)
    requires
        lo + n <= v.len(),
    ensures
        r == all_zero_seq(v@.subrange(lo as int, lo + n)),
{
    let mut i: usize = 0;
    while i < n
        invariant
            i <= n,
            lo + n <= v.len(),
            forall|k: int| 0 <= k < i ==> #[trigger] v@.subrange(lo as int, lo + n)[k] == 0,
        decreases n - i,
    {
        if v[lo + i] != 0 {
            assert(v@.subrange(lo as int, lo + n)[i as int] != 0);
            return false;
        }
        assert(v@.subrange(lo as int, lo + n)[i as int] == v@[lo + i]);
        i = i + 1;
    }
    true
}

/// Decodes one EVPN route of type `route_type` from its value `v`.
pub fn parse_evpn_route(route_type: u8, v: &[u8]) -> (r: Result<EvpnRoute, Error>)
    ensures
        res_view(r) == spec_evpn_route(route_type, v@),
{
    let n: usize = v.len();
    if route_type == 1 {
        if n < 25 {
            return Err(Error::UnexpectedEof { needed: 25, have: n });
        }
        let rd = read_array8(v, 0);
        let esi = read_array10(v, 8);
        Ok(
            EvpnRoute::EthernetAutoDiscovery {
                rd,
                esi,
                ethernet_tag: read_u32(v, 18),
                mpls_label: decode_mpls_label(v, 22),
            },
        )
    } else if route_type == 2 {
        if n < 33 {
            return Err(Error::UnexpectedEof { needed: 33, have: n });
        }
        let mac_len = v[22];
        if mac_len != 48 {
            let mut m = String::from_str("EVPN type2 mac_len=");
            push_dec(&mut m, mac_len as u64);
            m.append(", expected 48");
            assert(m@ =~= "EVPN type2 mac_len="@ + dec(mac_len as nat) + ", expected 48"@);
            return Err(Error::BgpParse(m));
        }
        let ip_len = v[29];
        let mut pos: usize = 30;
        let ip: Option<IpAddress> = if ip_len == 0 {
            None
        } else if ip_len == 32 {
            if n < pos + 4 {
                return Err(Error::UnexpectedEof { needed: pos + 4, have: n });
            }
            let a = read_array4(v, pos);
            pos = pos + 4;
            Some(IpAddress::V4(a))
        } else if ip_len == 128 {
            if n < pos + 16 {
                return Err(Error::UnexpectedEof { needed: pos + 16, have: n });
            }
            let a = read_array16(v, pos);
            pos = pos + 16;
            Some(IpAddress::V6(a))
        } else {
            let mut m = String::from_str("EVPN type2 ip_len=");
            push_dec(&mut m, ip_len as u64);
            assert(m@ =~= "EVPN type2 ip_len="@ + dec(ip_len as nat));
            return Err(Error::BgpParse(m));
        };
        if n < pos + 3 {
            return Err(Error::UnexpectedEof { needed: pos + 3, have: n });
        }
        let mpls_label1 = decode_mpls_label(v, pos);
        let mpls_label2 = if n >= pos + 6 {
            Some(decode_mpls_label(v, pos + 3))
        } else {
            None
        };
        Ok(
            EvpnRoute::MacIpAdvertisement {
                rd: read_array8(v, 0),
                esi: read_array10(v, 8),
                ethernet_tag: read_u32(v, 18),
                mac: read_array6(v, 23),
                ip,
                mpls_label1,
                mpls_label2,
            },
        )
    } else if route_type == 3 || route_type == 9 {
        if n < 13 {
            return Err(Error::UnexpectedEof { needed: 13, have: n });
        }
        let ip = match decode_evpn_router_ip(v[12], v, 13) {
            Err(e) => {
                return Err(e);
            },
            Ok(a) => a,
        };
        let rd = read_array8(v, 0);
        let ethernet_tag = read_u32(v, 8);
        if route_type == 3 {
            Ok(EvpnRoute::InclusiveMulticastEthernetTag { rd, ethernet_tag, originating_router_ip: ip })
        } else {
            Ok(EvpnRoute::PerRegionIPmsi { rd, ethernet_tag, originating_router_ip: ip })
        }
    } else if route_type == 4 {
        if n < 19 {
            return Err(Error::UnexpectedEof { needed: 19, have: n });
        }
        let ip = match decode_evpn_router_ip(v[18], v, 19) {
            Err(e) => {
                return Err(e);
            },
            Ok(a) => a,
        };
        Ok(
            EvpnRoute::EthernetSegment {
                rd: read_array8(v, 0),
                esi: read_array10(v, 8),
                originating_router_ip: ip,
            },
        )
    } else if route_type == 5 {
        if n < 34 {
            return Err(Error::UnexpectedEof { needed: 34, have: n });
        }
        let prefix_len = v[22];
        let w: usize = if prefix_len <= 32 {
            4
        } else {
            16
        };
        if n < 23 + w * 2 + 3 {
            return Err(Error::UnexpectedEof { needed: 23 + w * 2 + 3, have: n });
        }
        let prefix = if w == 4 {
            IpAddress::V4(read_array4(v, 23))
        } else {
            IpAddress::V6(read_array16(v, 23))
        };
        let gw_off: usize = 23 + w;
        let gw_ip = if all_zero(v, gw_off, w) {
            None
        } else if w == 4 {
            Some(IpAddress::V4(read_array4(v, gw_off)))
        } else {
            Some(IpAddress::V6(read_array16(v, gw_off)))
        };
        let mpls_label = decode_mpls_label(v, gw_off + w);
        Ok(
            EvpnRoute::IpPrefix {
                rd: read_array8(v, 0),
                esi: read_array10(v, 8),
                ethernet_tag: read_u32(v, 18),
                prefix,
                prefix_len,
                gw_ip,
                mpls_label,
            },
        )
    } else if (6 <= route_type && route_type <= 8) || route_type == 10 {
        if n < 13 {
            return Err(Error::UnexpectedEof { needed: 13, have: n });
        }
        let (src, grp, orig) = match decode_mcast_ips(v) {
            Err(e) => {
                return Err(e);
            },
            Ok(t) => t,
        };
        let rd = read_array8(v, 0);
        let ethernet_tag = read_u32(v, 8);
        if route_type == 6 {
            Ok(
                EvpnRoute::SelectiveMulticastEthernetTag {
                    rd,
                    ethernet_tag,
                    multicast_source: src,
                    multicast_group: grp,
                    originating_router_ip: orig,
                },
            )
        } else if route_type == 7 {
            Ok(
                EvpnRoute::IgmpJoinSynch {
                    rd,
                    ethernet_tag,
                    multicast_source: src,
                    multicast_group: grp,
                    originating_router_ip: orig,
                },
            )
        } else if route_type == 8 {
            Ok(
                EvpnRoute::IgmpLeaveSynch {
                    rd,
                    ethernet_tag,
                    multicast_source: src,
                    multicast_group: grp,
                    originating_router_ip: orig,
                },
            )
        } else {
            Ok(
                EvpnRoute::SPmsi {
                    rd,
                    ethernet_tag,
                    multicast_source: src,
                    multicast_group: grp,
                    originating_router_ip: orig,
                },
            )
        }
    } else if route_type == 11 {
        if n < 4 {
            return Err(Error::UnexpectedEof { needed: 4, have: n });
        }
        let path_id = read_u32(v, n - 4);
        let route_key = copy_range(v, 0, n - 4);
        Ok(EvpnRoute::LeafAD { route_key, path_id })
    } else {
        let data = copy_range(v, 0, n);
        assert(data@ =~= v@);
        Ok(EvpnRoute::Unknown { route_type, data })
    }
}

fn read_array10(buf: &[u8], pos: usize) -> (r: [u8; 10])
    requires
        pos + 10 <= buf.len(),
    ensures
        r@ == buf@.subrange(pos as int, pos + 10),
{
    let r = [
        buf[pos], buf[pos + 1], buf[pos + 2], buf[pos + 3], buf[pos + 4],
        buf[pos + 5], buf[pos + 6], buf[pos + 7], buf[pos + 8], buf[pos + 9],
    ];
    assert(r@ =~= buf@.subrange(pos as int, pos + 10));
    r
}

fn read_array6(buf: &[u8], pos: usize) -> (r: [u8; 6])
    requires
        pos + 6 <= buf.len(),
    ensures
        r@ == buf@.subrange(pos as int, pos + 6),
{
    let r = [buf[pos], buf[pos + 1], buf[pos + 2], buf[pos + 3], buf[pos + 4], buf[pos + 5]];
    assert(r@ =~= buf@.subrange(pos as int, pos + 6));
    r
}

/// EVPN routes of `s` appended to `acc`: type(1) + length(1) + value; a
/// value that runs past the end is an error.
pub open spec fn spec_evpn_from(s: Seq<u8>, acc: Seq<EvpnModel>) -> Result<Seq<EvpnModel>, ErrorModel>
    decreases s.len(),
{
    if s.len() < 2 {
        Ok(acc)
    } else {
        let l = s[1] as int;
        if s.len() - 2 < l {
            Err(eof(l, s.len() - 2))
        } else {
            match spec_evpn_route(s[0], s.subrange(2, 2 + l)) {
                Err(e) => Err(e),
                Ok(r) => spec_evpn_from(s.skip(2 + l), acc.push(r)),
            }
        }
    }
}

pub open spec fn routes_view(v: Seq<EvpnRoute>) -> Seq<EvpnModel> {
    v.map_values(|r: EvpnRoute| r@)
}

pub open spec fn routes_res(r: Result<Vec<EvpnRoute>, Error>) -> Result<Seq<EvpnModel>, ErrorModel> {
    match r {
        Ok(v) => Ok(routes_view(v@)),
        Err(e) => Err(e@),
    }
}

proof fn lemma_evpn_step(s: Seq<u8>, acc: Seq<EvpnModel>)
    requires
        s.len() >= 2,
        s.len() - 2 >= s[1],
    ensures
        spec_evpn_from(s, acc) == match spec_evpn_route(s[0], s.subrange(2, 2 + s[1] as int)) {
            Err(e) => Err(e),
            Ok(r) => spec_evpn_from(s.skip(2 + s[1] as int), acc.push(r)),
        },
{
}

/// Decodes EVPN NLRI from an MP_REACH or MP_UNREACH body.
#[verifier::rlimit(30)]
pub fn decode_evpn_nlri(buf: &[u8]) -> (r: Result<Vec<EvpnRoute>, Error>)
    ensures
        routes_res(r) == spec_evpn_from(buf@, Seq::empty()),
{
    let mut routes: Vec<EvpnRoute> = Vec::new();
    let mut pos: usize = 0;
    proof {
        assert(buf@.skip(0) =~= buf@);
        assert(routes_view(routes@) =~= Seq::<EvpnModel>::empty());
    }
    while buf.len() - pos >= 2
        invariant
            pos <= buf.len(),
            spec_evpn_from(buf@, Seq::empty()) == spec_evpn_from(
                buf@.skip(pos as int),
                routes_view(routes@),
            ),
        decreases buf.len() - pos,
    {
        let ghost rest = buf@.skip(pos as int);
        let route_type = buf[pos];
        let length = buf[pos + 1] as usize;
        if buf.len() - pos - 2 < length {
            return Err(Error::UnexpectedEof { needed: length, have: buf.len() - pos - 2 });
        }
        let value = copy_range(buf, pos + 2, length);
        proof {
            assert(value@ =~= rest.subrange(2, 2 + length));
            lemma_evpn_step(rest, routes_view(routes@));
        }
        match parse_evpn_route(route_type, value.as_slice()) {
            Err(e) => {
                return Err(e);
            },
            Ok(route) => {
                let ghost before = routes_view(routes@);
                let ghost rv = route@;
                routes.push(route);
                proof {
                    assert(routes_view(routes@) =~= before.push(rv));
                    assert(rest.skip(2 + length) =~= buf@.skip(pos + 2 + length));
                }
                pos = pos + 2 + length;
            },
        }
    }
    Ok(routes)
}

} // verus!
