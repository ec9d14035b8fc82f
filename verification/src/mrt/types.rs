//! MRT type and subtype codes (RFC 6396 sections 4.3 and 4.4) and BGP FSM
//! states.

use vstd::prelude::*;

verus! {

/// MRT message types.
#[derive(Debug, Clone, Copy, PartialEq, Eq, Structural)]
pub enum MrtType {
    OspfV2,
    TableDump,
    TableDumpV2,
    Bgp4Mp,
    /// BGP4MP with extended timestamp.
    Bgp4MpEt,
    Isis,
    OspfV3,
}

impl MrtType {
    /// The type's code on the wire.
    pub fn code(self) -> (r: u16)
        ensures
            r == match self {
                MrtType::OspfV2 => 11u16,
                MrtType::TableDump => 12u16,
                MrtType::TableDumpV2 => 13u16,
                MrtType::Bgp4Mp => 16u16,
                MrtType::Bgp4MpEt => 17u16,
                MrtType::Isis => 32u16,
                MrtType::OspfV3 => 48u16,
            },
    {
        match self {
            MrtType::OspfV2 => 11,
            MrtType::TableDump => 12,
            MrtType::TableDumpV2 => 13,
            MrtType::Bgp4Mp => 16,
            MrtType::Bgp4MpEt => 17,
            MrtType::Isis => 32,
            MrtType::OspfV3 => 48,
        }
    }
}

/// TABLE_DUMP_V2 subtypes.
#[derive(Debug, Clone, Copy, PartialEq, Eq, Structural)]
pub enum TableDumpV2Subtype {
    PeerIndexTable,
    RibIpv4Unicast,
    RibIpv4Multicast,
    RibIpv6Unicast,
    RibIpv6Multicast,
    RibGeneric,
    GeoPeerTable,
    RibIpv4UnicastAddPath,
    RibIpv6UnicastAddPath,
}

impl TableDumpV2Subtype {
    /// The subtype's code on the wire.
    pub fn code(self) -> (r: u16)
        ensures
            r == match self {
                TableDumpV2Subtype::PeerIndexTable => 1u16,
                TableDumpV2Subtype::RibIpv4Unicast => 2u16,
                TableDumpV2Subtype::RibIpv4Multicast => 3u16,
                TableDumpV2Subtype::RibIpv6Unicast => 4u16,
                TableDumpV2Subtype::RibIpv6Multicast => 5u16,
                TableDumpV2Subtype::RibGeneric => 6u16,
                TableDumpV2Subtype::GeoPeerTable => 7u16,
                TableDumpV2Subtype::RibIpv4UnicastAddPath => 8u16,
                TableDumpV2Subtype::RibIpv6UnicastAddPath => 9u16,
            },
    {
        match self {
            TableDumpV2Subtype::PeerIndexTable => 1,
            TableDumpV2Subtype::RibIpv4Unicast => 2,
            TableDumpV2Subtype::RibIpv4Multicast => 3,
            TableDumpV2Subtype::RibIpv6Unicast => 4,
            TableDumpV2Subtype::RibIpv6Multicast => 5,
            TableDumpV2Subtype::RibGeneric => 6,
            TableDumpV2Subtype::GeoPeerTable => 7,
            TableDumpV2Subtype::RibIpv4UnicastAddPath => 8,
            TableDumpV2Subtype::RibIpv6UnicastAddPath => 9,
        }
    }
}

/// BGP4MP subtypes.
#[derive(Debug, Clone, Copy, PartialEq, Eq, Structural)]
pub enum Bgp4MpSubtype {
    StateChange,
    Message,
    MessageAs4,
    StateChangeAs4,
    MessageLocal,
    MessageAs4Local,
    MessageAddpath,
    MessageAs4Addpath,
}

impl Bgp4MpSubtype {
    /// The subtype's code on the wire.
    pub fn code(self) -> (r: u16)
        ensures
            r == match self {
                Bgp4MpSubtype::StateChange => 0u16,
                Bgp4MpSubtype::Message => 1u16,
                Bgp4MpSubtype::MessageAs4 => 4u16,
                Bgp4MpSubtype::StateChangeAs4 => 5u16,
                Bgp4MpSubtype::MessageLocal => 6u16,
                Bgp4MpSubtype::MessageAs4Local => 7u16,
                Bgp4MpSubtype::MessageAddpath => 8u16,
                Bgp4MpSubtype::MessageAs4Addpath => 9u16,
            },
    {
        match self {
            Bgp4MpSubtype::StateChange => 0,
            Bgp4MpSubtype::Message => 1,
            Bgp4MpSubtype::MessageAs4 => 4,
            Bgp4MpSubtype::StateChangeAs4 => 5,
            Bgp4MpSubtype::MessageLocal => 6,
            Bgp4MpSubtype::MessageAs4Local => 7,
            Bgp4MpSubtype::MessageAddpath => 8,
            Bgp4MpSubtype::MessageAs4Addpath => 9,
        }
    }
}

/// BGP finite-state-machine states, as BGP4MP_STATE_CHANGE carries them.
#[derive(Debug, Clone, Copy, PartialEq, Eq, Structural)]
pub enum BgpState {
    Idle,
    Connect,
    Active,
    OpenSent,
    OpenConfirm,
    Established,
}

/// The code of a state.
pub open spec fn bgp_state_code(s: BgpState) -> u16 {
    match s {
        BgpState::Idle => 1,
        BgpState::Connect => 2,
        BgpState::Active => 3,
        BgpState::OpenSent => 4,
        BgpState::OpenConfirm => 5,
        BgpState::Established => 6,
    }
}

impl BgpState {
    /// The state's code on the wire.
    pub fn code(self) -> (r: u16)
        ensures
            r == bgp_state_code(self),
    {
        match self {
            BgpState::Idle => 1,
            BgpState::Connect => 2,
            BgpState::Active => 3,
            BgpState::OpenSent => 4,
            BgpState::OpenConfirm => 5,
            BgpState::Established => 6,
        }
    }
}

} // verus!
