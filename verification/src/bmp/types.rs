//! BMP message types, peer headers and statistics.

use vstd::prelude::*;
use vstd::string::StringExecFns;
use crate::error::{Error, ErrorModel};
use crate::net::{IpAddress, IpModel};
use crate::text::{dec, push_dec};
use crate::bgp::types::{AfiSafi, BgpCapability, CapabilityModel};
use crate::bgp::update::{BgpUpdate, UpdateModel};

verus! {

/// BMP message type (RFC 7854 section 4).
#[derive(Clone, Copy, Debug, PartialEq, Eq, Structural)]
pub enum BmpMsgType {
    RouteMonitoring,
    StatsReport,
    PeerDown,
    PeerUp,
    Initiation,
    Termination,
    RouteMirroring,
}

impl BmpMsgType {
    /// Decodes the message-type byte; values above 6 are rejected.
    pub fn try_from_u8(v: u8) -> (r: Result<BmpMsgType, Error>)
        ensures
            v == 0 ==> r == Ok::<BmpMsgType, Error>(BmpMsgType::RouteMonitoring),
            v == 1 ==> r == Ok::<BmpMsgType, Error>(BmpMsgType::StatsReport),
            v == 2 ==> r == Ok::<BmpMsgType, Error>(BmpMsgType::PeerDown),
            v == 3 ==> r == Ok::<BmpMsgType, Error>(BmpMsgType::PeerUp),
            v == 4 ==> r == Ok::<BmpMsgType, Error>(BmpMsgType::Initiation),
            v == 5 ==> r == Ok::<BmpMsgType, Error>(BmpMsgType::Termination),
            v == 6 ==> r == Ok::<BmpMsgType, Error>(BmpMsgType::RouteMirroring),
            v > 6 ==> r == Err::<BmpMsgType, Error>(Error::InvalidMessageType(v)),
    {
        match v {
            0 => Ok(BmpMsgType::RouteMonitoring),
            1 => Ok(BmpMsgType::StatsReport),
            2 => Ok(BmpMsgType::PeerDown),
            3 => Ok(BmpMsgType::PeerUp),
            4 => Ok(BmpMsgType::Initiation),
            5 => Ok(BmpMsgType::Termination),
            6 => Ok(BmpMsgType::RouteMirroring),
            _ => Err(Error::InvalidMessageType(v)),
        }
    }
}

/// Peer type (RFC 7854 section 4.2, RFC 9069).
#[derive(Clone, Copy, Debug, PartialEq, Eq, Structural)]
pub enum PeerType {
    GlobalInstance,
    RdInstance,
    LocalInstance,
    LocRib,
}

/// Peer flags byte (RFC 7854 section 4.2 and extensions).
#[derive(Clone, Copy, Debug, PartialEq, Eq, Structural, Default)]
pub struct PeerFlags(pub u8);

/// Whether bit `mask` (a power of two) is set in `v`.
pub open spec fn bit_set(v: u8, mask: u8) -> bool {
    (v / mask) % 2 == 1
}

impl PeerFlags {
    /// V flag (0x80): IPv6 peer address.
    pub fn ipv6(self) -> (r: bool)
        ensures
            r == bit_set(self.0, 0x80),
    {
        (self.0 / 0x80) % 2 == 1
    }

    /// L flag (0x40): post-policy.
    pub fn post_policy(self) -> (r: bool)
        ensures
            r == bit_set(self.0, 0x40),
    {
        (self.0 / 0x40) % 2 == 1
    }

    /// A flag (0x20): 2-byte AS_PATH.
    pub fn as2(self) -> (r: bool)
        ensures
            r == bit_set(self.0, 0x20),
    {
        (self.0 / 0x20) % 2 == 1
    }

    /// O flag (0x10): Adj-RIB-Out (RFC 8671).
    pub fn adj_rib_out(self) -> (r: bool)
        ensures
            r == bit_set(self.0, 0x10),
    {
        (self.0 / 0x10) % 2 == 1
    }

    /// F flag (0x08): filtered Loc-RIB (RFC 9069).
    pub fn filtered(self) -> (r: bool)
        ensures
            r == bit_set(self.0, 0x08),
    {
        (self.0 / 0x08) % 2 == 1
    }
}

/// Which RIB a monitored route belongs to.
#[derive(Clone, Copy, Debug, PartialEq, Eq, Structural, Hash)]
pub enum RibType {
    AdjRibInPrePolicy,
    AdjRibInPostPolicy,
    AdjRibOutPrePolicy,
    AdjRibOutPostPolicy,
    LocRib,
    LocRibFiltered,
}

/// The RIB named by a peer type and flags.
pub open spec fn rib_type_of(t: PeerType, f: u8) -> RibType {
    match t {
        PeerType::LocRib => if bit_set(f, 0x08) { RibType::LocRibFiltered } else { RibType::LocRib },
        PeerType::LocalInstance => if bit_set(f, 0x40) {
            RibType::AdjRibOutPostPolicy
        } else {
            RibType::AdjRibOutPrePolicy
        },
        _ => if bit_set(f, 0x10) {
            if bit_set(f, 0x40) { RibType::AdjRibOutPostPolicy } else { RibType::AdjRibOutPrePolicy }
        } else {
            if bit_set(f, 0x40) { RibType::AdjRibInPostPolicy } else { RibType::AdjRibInPrePolicy }
        },
    }
}

/// For a Global or RD instance peer, the RIB type follows the O flag (0x10)
/// and the L flag (0x40): Adj-RIB-In exactly when O is clear, and
/// post-policy exactly when L is set. Setting or clearing L alone moves a
/// route between the pre- and post-policy view of the same RIB.
pub proof fn lemma_instance_peer_rib(t: PeerType, f: u8)
    requires
        t == PeerType::GlobalInstance || t == PeerType::RdInstance,
    ensures
        (f & 0x10) == 0 ==> rib_type_of(t, f) == (if (f & 0x40) != 0 {
            RibType::AdjRibInPostPolicy
        } else {
            RibType::AdjRibInPrePolicy
        }),
        (f & 0x10) != 0 ==> rib_type_of(t, f) == (if (f & 0x40) != 0 {
            RibType::AdjRibOutPostPolicy
        } else {
            RibType::AdjRibOutPrePolicy
        }),
{
    lemma_flag_bits(f);
}

/// Peer flags decide the RIB of a Local Instance peer by L (0x40) and of a
/// Loc-RIB peer by F (0x08).
pub proof fn lemma_local_and_loc_rib_peers(f: u8)
    ensures
        rib_type_of(PeerType::LocalInstance, f) == (if (f & 0x40) != 0 {
            RibType::AdjRibOutPostPolicy
        } else {
            RibType::AdjRibOutPrePolicy
        }),
        rib_type_of(PeerType::LocRib, f) == (if (f & 0x08) != 0 {
            RibType::LocRibFiltered
        } else {
            RibType::LocRib
        }),
{
    lemma_flag_bits(f);
}

proof fn lemma_flag_bits(f: u8)
    ensures
        bit_set(f, 0x08) == ((f & 0x08) != 0),
        bit_set(f, 0x10) == ((f & 0x10) != 0),
        bit_set(f, 0x40) == ((f & 0x40) != 0),
{
    assert(((f / 0x08) % 2 == 1) == ((f & 0x08) != 0)) by (bit_vector);
    assert(((f / 0x10) % 2 == 1) == ((f & 0x10) != 0)) by (bit_vector);
    assert(((f / 0x40) % 2 == 1) == ((f & 0x40) != 0)) by (bit_vector);
}

impl RibType {
    /// Derives the RIB from the peer type and flags.
    pub fn from_peer(peer_type: PeerType, flags: PeerFlags) -> (r: RibType)
        ensures
            r == rib_type_of(peer_type, flags.0),
    {
        match peer_type {
            PeerType::LocRib => {
                if flags.filtered() { RibType::LocRibFiltered } else { RibType::LocRib }
            },
            PeerType::LocalInstance => {
                if flags.post_policy() {
                    RibType::AdjRibOutPostPolicy
                } else {
                    RibType::AdjRibOutPrePolicy
                }
            },
            _ => {
                if flags.adj_rib_out() {
                    if flags.post_policy() {
                        RibType::AdjRibOutPostPolicy
                    } else {
                        RibType::AdjRibOutPrePolicy
                    }
                } else {
                    if flags.post_policy() {
                        RibType::AdjRibInPostPolicy
                    } else {
                        RibType::AdjRibInPrePolicy
                    }
                }
            },
        }
    }
}

/// BGP OPEN contents captured at Peer Up.
#[derive(Clone, Debug)]
pub struct BgpOpenInfo {
    pub version: u8,
    pub asn: u32,
    pub hold_time: u16,
    pub bgp_id: [u8; 4],
    pub capabilities: Vec<BgpCapability>,
}

/// Model of a BGP OPEN.
pub struct OpenModel {
    pub version: u8,
    pub asn: u32,
    pub hold_time: u16,
    pub bgp_id: Seq<u8>,
    pub capabilities: Seq<CapabilityModel>,
}

impl View for BgpOpenInfo {
    type V = OpenModel;

    open spec fn view(&self) -> OpenModel {
        OpenModel {
            version: self.version,
            asn: self.asn,
            hold_time: self.hold_time,
            bgp_id: self.bgp_id@,
            capabilities: self.capabilities@.map_values(|c: BgpCapability| c@),
        }
    }
}

/// The peer type of a byte, or the error for an unknown one.
pub open spec fn spec_peer_type(v: u8) -> Result<PeerType, ErrorModel> {
    if v == 0 {
        Ok(PeerType::GlobalInstance)
    } else if v == 1 {
        Ok(PeerType::RdInstance)
    } else if v == 2 {
        Ok(PeerType::LocalInstance)
    } else if v == 3 {
        Ok(PeerType::LocRib)
    } else {
        Err(ErrorModel::BmpParse("unknown peer type "@ + dec(v as nat)))
    }
}

impl PeerType {
    /// Decodes the peer-type byte; values above 3 are rejected.
    pub fn try_from_u8(v: u8) -> (r: Result<PeerType, Error>)
        ensures
            match r {
                Ok(t) => spec_peer_type(v) == Ok::<PeerType, ErrorModel>(t),
                Err(e) => spec_peer_type(v) == Err::<PeerType, ErrorModel>(e@),
            },
    {
        match v {
            0 => Ok(PeerType::GlobalInstance),
            1 => Ok(PeerType::RdInstance),
            2 => Ok(PeerType::LocalInstance),
            3 => Ok(PeerType::LocRib),
            _ => {
                let mut m = String::from_str("unknown peer type ");
                push_dec(&mut m, v as u64);
                assert(m@ =~= "unknown peer type "@ + dec(v as nat));
                Err(Error::BmpParse(m))
            },
        }
    }
}

/// Per-peer header (RFC 7854 section 4.2). The timestamp is kept as the
/// seconds and microseconds carried on the wire.
#[derive(Clone, Copy, Debug)]
pub struct PeerHeader {
    pub peer_type: PeerType,
    pub peer_flags: PeerFlags,
    pub peer_distinguisher: [u8; 8],
    pub peer_address: IpAddress,
    pub peer_as: u32,
    pub peer_bgp_id: [u8; 4],
    pub timestamp_secs: u32,
    pub timestamp_micros: u32,
    pub rib_type: RibType,
}

pub struct PeerHeaderModel {
    pub peer_type: PeerType,
    pub peer_flags: u8,
    pub peer_distinguisher: Seq<u8>,
    pub peer_address: IpModel,
    pub peer_as: u32,
    pub peer_bgp_id: Seq<u8>,
    pub timestamp_secs: u32,
    pub timestamp_micros: u32,
    pub rib_type: RibType,
}

impl View for PeerHeader {
    type V = PeerHeaderModel;

    open spec fn view(&self) -> PeerHeaderModel {
        PeerHeaderModel {
            peer_type: self.peer_type,
            peer_flags: self.peer_flags.0,
            peer_distinguisher: self.peer_distinguisher@,
            peer_address: self.peer_address@,
            peer_as: self.peer_as,
            peer_bgp_id: self.peer_bgp_id@,
            timestamp_secs: self.timestamp_secs,
            timestamp_micros: self.timestamp_micros,
            rib_type: self.rib_type,
        }
    }
}

/// One Initiation information TLV.
#[derive(Clone, Debug)]
pub struct InitiationTlv {
    pub tlv_type: u16,
    pub value: String,
}

/// Initiation information by kind.
#[derive(Clone, Debug)]
pub enum InitiationInfo {
    SysDescr(String),
    SysName(String),
    AdminLabel(String),
    Unknown { tlv_type: u16, hex: String },
}

/// Termination reason (RFC 7854 section 4.5).
#[derive(Clone, Copy, Debug, PartialEq, Eq, Structural)]
pub enum TermReason {
    AdministrativelyClosed,
    Unspecified,
    OutOfResources,
    RedundantConnection,
    PermanentlyAdminClosed,
}

/// Peer Down reason (RFC 7854 section 4.9).
#[derive(Clone, Debug)]
pub enum PeerDownReason {
    LocalSystemClosed { notification: Option<Vec<u8>> },
    LocalSystemClosed2,
    RemoteSystemClosed { notification: Option<Vec<u8>> },
    RemoteSystemClosed2,
    PeerDeConfigured,
    VrfDown,
    Unknown(u8),
}

pub enum PeerDownModel {
    LocalSystemClosed { notification: Option<Seq<u8>> },
    LocalSystemClosed2,
    RemoteSystemClosed { notification: Option<Seq<u8>> },
    RemoteSystemClosed2,
    PeerDeConfigured,
    VrfDown,
    Unknown(u8),
}

pub open spec fn opt_bytes(o: Option<Vec<u8>>) -> Option<Seq<u8>> {
    match o {
        Some(v) => Some(v@),
        None => None,
    }
}

impl View for PeerDownReason {
    type V = PeerDownModel;

    open spec fn view(&self) -> PeerDownModel {
        match self {
            PeerDownReason::LocalSystemClosed { notification } => PeerDownModel::LocalSystemClosed {
                notification: opt_bytes(*notification),
            },
            PeerDownReason::LocalSystemClosed2 => PeerDownModel::LocalSystemClosed2,
            PeerDownReason::RemoteSystemClosed { notification } => PeerDownModel::RemoteSystemClosed {
                notification: opt_bytes(*notification),
            },
            PeerDownReason::RemoteSystemClosed2 => PeerDownModel::RemoteSystemClosed2,
            PeerDownReason::PeerDeConfigured => PeerDownModel::PeerDeConfigured,
            PeerDownReason::VrfDown => PeerDownModel::VrfDown,
            PeerDownReason::Unknown(c) => PeerDownModel::Unknown(*c),
        }
    }
}

/// Peer Up notification (RFC 7854 section 4.10).
#[derive(Clone, Debug)]
pub struct PeerUpMessage {
    pub peer_header: PeerHeader,
    pub local_addr: IpAddress,
    pub local_port: u16,
    pub remote_port: u16,
    pub sent_open: BgpOpenInfo,
    pub recv_open: BgpOpenInfo,
}

pub struct PeerUpModel {
    pub peer_header: PeerHeaderModel,
    pub local_addr: IpModel,
    pub local_port: u16,
    pub remote_port: u16,
    pub sent_open: OpenModel,
    pub recv_open: OpenModel,
}

impl View for PeerUpMessage {
    type V = PeerUpModel;

    open spec fn view(&self) -> PeerUpModel {
        PeerUpModel {
            peer_header: self.peer_header@,
            local_addr: self.local_addr@,
            local_port: self.local_port,
            remote_port: self.remote_port,
            sent_open: self.sent_open@,
            recv_open: self.recv_open@,
        }
    }
}

/// One statistics counter (RFC 7854 section 4.8); per-AFI/SAFI counters
/// carry their address family.
#[derive(Clone, Debug)]
pub struct StatEntry {
    pub stat_type: u16,
    pub name: String,
    pub value: u64,
    pub afi_safi: Option<AfiSafi>,
}

pub struct StatModel {
    pub stat_type: u16,
    pub name: Seq<char>,
    pub value: u64,
    pub afi_safi: Option<AfiSafi>,
}

impl View for StatEntry {
    type V = StatModel;

    open spec fn view(&self) -> StatModel {
        StatModel { stat_type: self.stat_type, name: self.name@, value: self.value, afi_safi: self.afi_safi }
    }
}

/// Name of a statistics type: types 0 to 13 as RFC 7854 section 4.8
/// numbers them, 14 to 17 as RFC 8671 adds them for the Adj-RIB-Out, and
/// 18 to 38, the advanced statistics of RFC 9972, by their number.
pub open spec fn stat_text(t: u16) -> Seq<char> {
    if t == 0 {
        "prefixes-rejected-by-inbound-policy"@
    } else if t == 1 {
        "duplicate-prefix-advertisements"@
    } else if t == 2 {
        "duplicate-withdrawals"@
    } else if t == 3 {
        "cluster-list-loop-detections"@
    } else if t == 4 {
        "as-path-loop-detections"@
    } else if t == 5 {
        "originator-id-loop-detections"@
    } else if t == 6 {
        "as-confed-loop-detections"@
    } else if t == 7 {
        "adj-rib-in-routes"@
    } else if t == 8 {
        "loc-rib-routes"@
    } else if t == 9 {
        "per-afi-safi-adj-rib-in-routes"@
    } else if t == 10 {
        "per-afi-safi-loc-rib-routes"@
    } else if t == 11 {
        "updates-subjected-to-treat-as-withdraw"@
    } else if t == 12 {
        "prefixes-subjected-to-treat-as-withdraw"@
    } else if t == 13 {
        "duplicate-update-messages"@
    } else if t == 14 {
        "adj-rib-out-pre-policy-routes"@
    } else if t == 15 {
        "adj-rib-out-post-policy-routes"@
    } else if t == 16 {
        "per-afi-safi-adj-rib-out-pre-policy-routes"@
    } else if t == 17 {
        "per-afi-safi-adj-rib-out-post-policy-routes"@
    } else if t == 18 {
        "advanced-statistic-18"@
    } else if t == 19 {
        "advanced-statistic-19"@
    } else if t == 20 {
        "advanced-statistic-20"@
    } else if t == 21 {
        "advanced-statistic-21"@
    } else if t == 22 {
        "advanced-statistic-22"@
    } else if t == 23 {
        "advanced-statistic-23"@
    } else if t == 24 {
        "advanced-statistic-24"@
    } else if t == 25 {
        "advanced-statistic-25"@
    } else if t == 26 {
        "advanced-statistic-26"@
    } else if t == 27 {
        "advanced-statistic-27"@
    } else if t == 28 {
        "advanced-statistic-28"@
    } else if t == 29 {
        "advanced-statistic-29"@
    } else if t == 30 {
        "advanced-statistic-30"@
    } else if t == 31 {
        "advanced-statistic-31"@
    } else if t == 32 {
        "advanced-statistic-32"@
    } else if t == 33 {
        "advanced-statistic-33"@
    } else if t == 34 {
        "advanced-statistic-34"@
    } else if t == 35 {
        "advanced-statistic-35"@
    } else if t == 36 {
        "advanced-statistic-36"@
    } else if t == 37 {
        "advanced-statistic-37"@
    } else if t == 38 {
        "advanced-statistic-38"@
    } else {
        "unknown"@
    }
}

/// Name of a statistics type.
pub fn stat_name(t: u16) -> (r: &'static str)
    ensures
        r@ == stat_text(t),
{
    match t {
        0 => "prefixes-rejected-by-inbound-policy",
        1 => "duplicate-prefix-advertisements",
        2 => "duplicate-withdrawals",
        3 => "cluster-list-loop-detections",
        4 => "as-path-loop-detections",
        5 => "originator-id-loop-detections",
        6 => "as-confed-loop-detections",
        7 => "adj-rib-in-routes",
        8 => "loc-rib-routes",
        9 => "per-afi-safi-adj-rib-in-routes",
        10 => "per-afi-safi-loc-rib-routes",
        11 => "updates-subjected-to-treat-as-withdraw",
        12 => "prefixes-subjected-to-treat-as-withdraw",
        13 => "duplicate-update-messages",
        14 => "adj-rib-out-pre-policy-routes",
        15 => "adj-rib-out-post-policy-routes",
        16 => "per-afi-safi-adj-rib-out-pre-policy-routes",
        17 => "per-afi-safi-adj-rib-out-post-policy-routes",
        18 => "advanced-statistic-18",
        19 => "advanced-statistic-19",
        20 => "advanced-statistic-20",
        21 => "advanced-statistic-21",
        22 => "advanced-statistic-22",
        23 => "advanced-statistic-23",
        24 => "advanced-statistic-24",
        25 => "advanced-statistic-25",
        26 => "advanced-statistic-26",
        27 => "advanced-statistic-27",
        28 => "advanced-statistic-28",
        29 => "advanced-statistic-29",
        30 => "advanced-statistic-30",
        31 => "advanced-statistic-31",
        32 => "advanced-statistic-32",
        33 => "advanced-statistic-33",
        34 => "advanced-statistic-34",
        35 => "advanced-statistic-35",
        36 => "advanced-statistic-36",
        37 => "advanced-statistic-37",
        38 => "advanced-statistic-38",
        _ => "unknown",
    }
}

/// A decoded BMP message body.
#[derive(Debug)]
pub enum BmpPayload {
    Initiation { sys_name: Option<String>, sys_descr: Option<String>, labels: Vec<String> },
    Termination { reason_code: u16, reason_text: Option<String> },
    PeerUp(PeerUpMessage),
    PeerDown { peer_header: PeerHeader, reason: PeerDownReason },
    RouteMonitoring { peer_header: PeerHeader, update: BgpUpdate },
    StatsReport { peer_header: PeerHeader, stats: Vec<StatEntry> },
    RouteMirroring { peer_header: PeerHeader, pdu: Vec<u8> },
}

pub enum PayloadModel {
    Initiation { sys_name: Option<Seq<char>>, sys_descr: Option<Seq<char>>, labels: Seq<Seq<char>> },
    Termination { reason_code: u16, reason_text: Option<Seq<char>> },
    PeerUp(PeerUpModel),
    PeerDown { peer_header: PeerHeaderModel, reason: PeerDownModel },
    RouteMonitoring { peer_header: PeerHeaderModel, update: UpdateModel },
    StatsReport { peer_header: PeerHeaderModel, stats: Seq<StatModel> },
    RouteMirroring { peer_header: PeerHeaderModel, pdu: Seq<u8> },
}

pub open spec fn opt_text(o: Option<String>) -> Option<Seq<char>> {
    match o {
        Some(s) => Some(s@),
        None => None,
    }
}

pub open spec fn texts_view(v: Seq<String>) -> Seq<Seq<char>> {
    v.map_values(|s: String| s@)
}

pub open spec fn stats_view(v: Seq<StatEntry>) -> Seq<StatModel> {
    v.map_values(|s: StatEntry| s@)
}

impl View for BmpPayload {
    type V = PayloadModel;

    open spec fn view(&self) -> PayloadModel {
        match self {
            BmpPayload::Initiation { sys_name, sys_descr, labels } => PayloadModel::Initiation {
                sys_name: opt_text(*sys_name),
                sys_descr: opt_text(*sys_descr),
                labels: texts_view(labels@),
            },
            BmpPayload::Termination { reason_code, reason_text } => PayloadModel::Termination {
                reason_code: *reason_code,
                reason_text: opt_text(*reason_text),
            },
            BmpPayload::PeerUp(m) => PayloadModel::PeerUp(m@),
            BmpPayload::PeerDown { peer_header, reason } => PayloadModel::PeerDown {
                peer_header: peer_header@,
                reason: reason@,
            },
            BmpPayload::RouteMonitoring { peer_header, update } => PayloadModel::RouteMonitoring {
                peer_header: peer_header@,
                update: update@,
            },
            BmpPayload::StatsReport { peer_header, stats } => PayloadModel::StatsReport {
                peer_header: peer_header@,
                stats: stats_view(stats@),
            },
            BmpPayload::RouteMirroring { peer_header, pdu } => PayloadModel::RouteMirroring {
                peer_header: peer_header@,
                pdu: pdu@,
            },
        }
    }
}

/// Message type name of a payload.
pub open spec fn payload_type_text(p: PayloadModel) -> Seq<char> {
    match p {
        PayloadModel::Initiation { .. } => "initiation"@,
        PayloadModel::Termination { .. } => "termination"@,
        PayloadModel::PeerUp(_) => "peer_up"@,
        PayloadModel::PeerDown { .. } => "peer_down"@,
        PayloadModel::RouteMonitoring { .. } => "route_monitoring"@,
        PayloadModel::StatsReport { .. } => "stats_report"@,
        PayloadModel::RouteMirroring { .. } => "route_mirroring"@,
    }
}

/// A received BMP message: an identifier and receive time assigned by the
/// collector (as plain values), the speaker's address and the payload.
#[derive(Debug)]
pub struct BmpMessage {
    pub id: [u8; 16],
    pub received_at_secs: i64,
    pub received_at_nanos: u32,
    pub speaker_addr: IpAddress,
    pub payload: BmpPayload,
}

impl BmpMessage {
    /// Name of the message type.
    pub fn msg_type(&self) -> (r: &'static str)
        ensures
            r@ == payload_type_text(self.payload@),
    {
        match &self.payload {
            BmpPayload::Initiation { .. } => "initiation",
            BmpPayload::Termination { .. } => "termination",
            BmpPayload::PeerUp(_) => "peer_up",
            BmpPayload::PeerDown { .. } => "peer_down",
            BmpPayload::RouteMonitoring { .. } => "route_monitoring",
            BmpPayload::StatsReport { .. } => "stats_report",
            BmpPayload::RouteMirroring { .. } => "route_mirroring",
        }
    }
}

} // verus!
