//! The RPKI-to-Router protocol (RFC 8210) as seen by a router: framing of
//! the PDU stream, the queries it sends, and the session state that turns
//! the PDUs it receives into updates of a VRP table.

use vstd::prelude::*;
use crate::bgp::nlri::{masked_addr, read_net};
use crate::bgp::types::{Afi, Ipv4Net, Ipv6Net, Prefix};
use crate::cidr::{IpNetwork, NetModel};
use crate::enrichment::vrp_cache::{VrpEntry, VrpModel, all_wf, vrps_view};
use crate::wire::{be16_at, be32_at, read_u16, read_u32};

verus! {

pub const PDU_SERIAL_NOTIFY: u8 = 0;
pub const PDU_SERIAL_QUERY: u8 = 1;
pub const PDU_RESET_QUERY: u8 = 2;
pub const PDU_CACHE_RESPONSE: u8 = 3;
pub const PDU_IPV4_PREFIX: u8 = 4;
pub const PDU_IPV6_PREFIX: u8 = 6;
pub const PDU_END_OF_DATA: u8 = 7;
pub const PDU_CACHE_RESET: u8 = 8;
pub const PDU_ROUTER_KEY: u8 = 9;
pub const PDU_ERROR_REPORT: u8 = 10;

/// Protocol version sent in queries.
pub const RTR_VERSION: u8 = 2;

/// Length of the common PDU header: version, type, session id or error
/// code, length.
pub const RTR_HDR_LEN: usize = 8;

/// Why an RTR session ends.
#[derive(Clone, Copy, Debug, PartialEq, Eq, Structural)]
pub enum RtrError {
    /// A PDU header gives a length below the header's own.
    PduTooShort(u32),
    /// An IPv4 prefix PDU with a prefix length above 32.
    BadIpv4Prefix(u8),
    /// An IPv6 prefix PDU with a prefix length above 128.
    BadIpv6Prefix(u8),
    /// The cache sent an Error Report with this code.
    ErrorReport(u16),
}

/// Length of the first complete PDU in `buf`: `None` while the header or
/// the PDU is incomplete, an error when the header's length is below 8.
pub open spec fn spec_next_pdu(buf: Seq<u8>) -> Result<Option<nat>, RtrError> {
    if buf.len() < 8 {
        Ok(None)
    } else {
        let n = be32_at(buf, 4);
        if n < 8 {
            Err(RtrError::PduTooShort(n as u32))
        } else if buf.len() < n {
            Ok(None)
        } else {
            Ok(Some(n as nat))
        }
    }
}

/// Frames the PDU stream (see `spec_next_pdu`).
pub fn next_pdu_len(buf: &[u8]) -> (r: Result<Option<usize>, RtrError>)
    ensures
        match r {
            Ok(Some(n)) => spec_next_pdu(buf@) == Ok::<Option<nat>, RtrError>(Some(n as nat)),
            Ok(None) => spec_next_pdu(buf@) == Ok::<Option<nat>, RtrError>(None),
            Err(e) => spec_next_pdu(buf@) == Err::<Option<nat>, RtrError>(e),
        },
{
    if buf.len() < RTR_HDR_LEN {
        return Ok(None);
    }
    let n = read_u32(buf, 4);
    if (n as usize) < RTR_HDR_LEN {
        return Err(RtrError::PduTooShort(n));
    }
    if buf.len() < n as usize {
        Ok(None)
    } else {
        Ok(Some(n as usize))
    }
}

/// The Reset Query PDU: version, type 2, zero, length 8.
pub fn reset_query_pdu() -> (r: [u8; 8])
    ensures
        r@ == seq![RTR_VERSION, PDU_RESET_QUERY, 0u8, 0u8, 0u8, 0u8, 0u8, 8u8],
{
    let r = [RTR_VERSION, PDU_RESET_QUERY, 0, 0, 0, 0, 0, 8];
    assert(r@ =~= seq![RTR_VERSION, PDU_RESET_QUERY, 0u8, 0u8, 0u8, 0u8, 0u8, 8u8]);
    r
}

/// The Serial Query PDU: version, type 1, session id, length 12, serial.
pub fn serial_query_pdu(session_id: u16, serial: u32) -> (r: [u8; 12])
    ensures
        r@.len() == 12,
        r@[0] == RTR_VERSION,
        r@[1] == PDU_SERIAL_QUERY,
        be16_at(r@, 2) == session_id,
        be32_at(r@, 4) == 12,
        be32_at(r@, 8) == serial,
{
    let s = session_id;
    let v = serial;
    let r = [
        RTR_VERSION,
        PDU_SERIAL_QUERY,
        (s / 256) as u8,
        (s % 256) as u8,
        0,
        0,
        0,
        12,
        (v / 0x100_0000) as u8,
        ((v / 0x1_0000) % 256) as u8,
        ((v / 256) % 256) as u8,
        (v % 256) as u8,
    ];
    assert(be32_at(r@, 8) == serial) by {
        assert(r@[8] == v / 0x100_0000);
        assert(r@[9] == (v / 0x1_0000) % 256);
        assert(r@[10] == (v / 256) % 256);
        assert(r@[11] == v % 256);
    }
    r
}

/// What the router does after a PDU.
#[derive(Debug)]
pub enum RtrAction {
    /// Nothing.
    Nothing,
    /// Remove this VRP from the table (an IPv4 or IPv6 prefix withdrawal).
    Withdraw(VrpEntry),
    /// Replace the table with these VRPs and serial (end of a cache response).
    LoadTable { entries: Vec<VrpEntry>, serial: u32 },
    /// Set the table's serial (end of an incremental update).
    SetSerial(u32),
    /// Send a Reset Query.
    SendResetQuery,
    /// Send a Serial Query.
    SendSerialQuery { session_id: u16, serial: u32 },
}

/// Model of an action.
pub enum ActionModel {
    Nothing,
    Withdraw(VrpModel),
    LoadTable { entries: Seq<VrpModel>, serial: u32 },
    SetSerial(u32),
    SendResetQuery,
    SendSerialQuery { session_id: u16, serial: u32 },
}

impl View for RtrAction {
    type V = ActionModel;

    open spec fn view(&self) -> ActionModel {
        match self {
            RtrAction::Nothing => ActionModel::Nothing,
            RtrAction::Withdraw(e) => ActionModel::Withdraw(e@),
            RtrAction::LoadTable { entries, serial } => ActionModel::LoadTable {
                entries: vrps_view(entries@),
                serial: *serial,
            },
            RtrAction::SetSerial(s) => ActionModel::SetSerial(*s),
            RtrAction::SendResetQuery => ActionModel::SendResetQuery,
            RtrAction::SendSerialQuery { session_id, serial } => ActionModel::SendSerialQuery {
                session_id: *session_id,
                serial: *serial,
            },
        }
    }
}

/// Model of the session state.
pub struct SessionState {
    pub pending: Seq<VrpModel>,
    pub in_cache_response: bool,
    pub session_id: u16,
}

/// The VRP of an IPv4 (`v6` false) or IPv6 prefix PDU: the network
/// truncated to its length, the max length and the origin AS.
pub open spec fn prefix_vrp(pdu: Seq<u8>, v6: bool) -> VrpModel {
    let len = pdu[9];
    VrpModel {
        prefix: NetModel {
            v6,
            addr: masked_addr(pdu.skip(12), len as nat, if v6 { 16 } else { 4 }),
            len,
        },
        max_len: pdu[10],
        origin_asn: be32_at(pdu, if v6 { 28 } else { 16 }) as u32,
    }
}

/// The PDUs `handle_pdu` takes: a whole header, and an End of Data long
/// enough to hold its serial.
pub open spec fn pdu_ok(pdu: Seq<u8>) -> bool {
    pdu.len() >= 8 && (pdu[1] == PDU_END_OF_DATA ==> pdu.len() >= 12)
}

/// The session state and the router's action after one PDU. Prefix PDUs
/// that are too short are skipped; an announced prefix (flag bit 0 set) is
/// collected, a withdrawn one removed from the table at once.
pub open spec fn rtr_step(st: SessionState, pdu: Seq<u8>, cache_serial: u32) -> (
    SessionState,
    Result<ActionModel, RtrError>,
) {
    let t = pdu[1];
    if t == PDU_CACHE_RESPONSE {
        (
            SessionState {
                pending: Seq::empty(),
                in_cache_response: true,
                session_id: be16_at(pdu, 2) as u16,
            },
            Ok(ActionModel::Nothing),
        )
    } else if t == PDU_IPV4_PREFIX || t == PDU_IPV6_PREFIX {
        let v6 = t == PDU_IPV6_PREFIX;
        if pdu.len() < (if v6 { 32int } else { 20int }) {
            (st, Ok(ActionModel::Nothing))
        } else if pdu[9] > (if v6 { 128int } else { 32int }) {
            (
                st,
                Err(
                    if v6 {
                        RtrError::BadIpv6Prefix(pdu[9])
                    } else {
                        RtrError::BadIpv4Prefix(pdu[9])
                    },
                ),
            )
        } else if pdu[8] % 2 == 1 {
            (SessionState { pending: st.pending.push(prefix_vrp(pdu, v6)), ..st }, Ok(ActionModel::Nothing))
        } else {
            (st, Ok(ActionModel::Withdraw(prefix_vrp(pdu, v6))))
        }
    } else if t == PDU_END_OF_DATA {
        let serial = be32_at(pdu, 8) as u32;
        if st.in_cache_response {
            (
                SessionState { pending: Seq::empty(), in_cache_response: false, ..st },
                Ok(ActionModel::LoadTable { entries: st.pending, serial }),
            )
        } else {
            (st, Ok(ActionModel::SetSerial(serial)))
        }
    } else if t == PDU_CACHE_RESET {
        (
            SessionState { pending: Seq::empty(), in_cache_response: false, ..st },
            Ok(ActionModel::SendResetQuery),
        )
    } else if t == PDU_SERIAL_NOTIFY {
        (st, Ok(ActionModel::SendSerialQuery { session_id: st.session_id, serial: cache_serial }))
    } else if t == PDU_ERROR_REPORT {
        (st, Err(RtrError::ErrorReport(be16_at(pdu, 2) as u16)))
    } else {
        (st, Ok(ActionModel::Nothing))
    }
}

pub open spec fn result_view(r: Result<RtrAction, RtrError>) -> Result<ActionModel, RtrError> {
    match r {
        Ok(a) => Ok(a@),
        Err(e) => Err(e),
    }
}

/// The state of one RTR session.
pub struct RtrSession {
    pending: Vec<VrpEntry>,
    in_cache_response: bool,
    session_id: u16,
}

impl View for RtrSession {
    type V = SessionState;

    closed spec fn view(&self) -> SessionState {
        SessionState {
            pending: vrps_view(self.pending@),
            in_cache_response: self.in_cache_response,
            session_id: self.session_id,
        }
    }
}

/// The VRP of a prefix PDU (see `prefix_vrp`).
fn read_prefix_vrp(pdu: &[u8], v6: bool) -> (r: VrpEntry)
    requires
        pdu.len() >= (if v6 { 32int } else { 20int }),
        pdu@[9] <= (if v6 { 128int } else { 32int }),
    ensures
        r@ == prefix_vrp(pdu@, v6),
        r.prefix.wf(),
{
    let len = pdu[9];
    let max_len = pdu[10];
    if v6 {
        let p = read_net(pdu, 12, len, Afi::Ipv6);
        let n = match p {
            Prefix::V6(n) => n,
            _ => Ipv6Net { addr: [0u8; 16], prefix_len: 0 },
        };
        VrpEntry { prefix: IpNetwork::V6(n), max_len, origin_asn: read_u32(pdu, 28) }
    } else {
        let p = read_net(pdu, 12, len, Afi::Ipv4);
        let n = match p {
            Prefix::V4(n) => n,
            _ => Ipv4Net { addr: [0u8; 4], prefix_len: 0 },
        };
        VrpEntry { prefix: IpNetwork::V4(n), max_len, origin_asn: read_u32(pdu, 16) }
    }
}

impl RtrSession {
    /// Every collected VRP has a prefix length that fits its family.
    pub closed spec fn wf(&self) -> bool {
        all_wf(self.pending@)
    }

    /// A session before any PDU: nothing pending, session id 0.
    pub fn new() -> (r: RtrSession)
        ensures
            r@.pending.len() == 0,
            !r@.in_cache_response,
            r@.session_id == 0,
            r.wf(),
    {
        let r = RtrSession { pending: Vec::new(), in_cache_response: false, session_id: 0 };
        assert(vrps_view(r.pending@) =~= Seq::<VrpModel>::empty());
        r
    }

    /// Handles one PDU (see `rtr_step`); `cache_serial` is the VRP table's
    /// current serial.
    pub fn handle_pdu(&mut self, pdu: &[u8], cache_serial: u32) -> (r: Result<RtrAction, RtrError>)
        requires
            pdu_ok(pdu@),
            old(self).wf(),
        ensures
            (final(self)@, result_view(r)) == rtr_step(old(self)@, pdu@, cache_serial),
            final(self).wf(),
            r matches Ok(RtrAction::LoadTable { entries, .. }) ==> all_wf(entries@),
    {
        let t = pdu[1];
        if t == PDU_CACHE_RESPONSE {
            self.session_id = read_u16(pdu, 2);
            self.in_cache_response = true;
            self.pending = Vec::new();
            assert(vrps_view(self.pending@) =~= Seq::<VrpModel>::empty());
            Ok(RtrAction::Nothing)
        } else if t == PDU_IPV4_PREFIX || t == PDU_IPV6_PREFIX {
            let v6 = t == PDU_IPV6_PREFIX;
            let need: usize = if v6 { 32 } else { 20 };
            let max: u8 = if v6 { 128 } else { 32 };
            if pdu.len() < need {
                return Ok(RtrAction::Nothing);
            }
            if pdu[9] > max {
                return Err(
                    if v6 {
                        RtrError::BadIpv6Prefix(pdu[9])
                    } else {
                        RtrError::BadIpv4Prefix(pdu[9])
                    },
                );
            }
            let e = read_prefix_vrp(pdu, v6);
            if pdu[8] % 2 == 1 {
                let ghost before = vrps_view(self.pending@);
                self.pending.push(e);
                assert(vrps_view(self.pending@) =~= before.push(e@));
                Ok(RtrAction::Nothing)
            } else {
                Ok(RtrAction::Withdraw(e))
            }
        } else if t == PDU_END_OF_DATA {
            let serial = read_u32(pdu, 8);
            if self.in_cache_response {
                let mut entries: Vec<VrpEntry> = Vec::new();
                std::mem::swap(&mut entries, &mut self.pending);
                self.in_cache_response = false;
                assert(vrps_view(self.pending@) =~= Seq::<VrpModel>::empty());
                Ok(RtrAction::LoadTable { entries, serial })
            } else {
                Ok(RtrAction::SetSerial(serial))
            }
        } else if t == PDU_CACHE_RESET {
            self.pending = Vec::new();
            self.in_cache_response = false;
            assert(vrps_view(self.pending@) =~= Seq::<VrpModel>::empty());
            Ok(RtrAction::SendResetQuery)
        } else if t == PDU_SERIAL_NOTIFY {
            Ok(RtrAction::SendSerialQuery { session_id: self.session_id, serial: cache_serial })
        } else if t == PDU_ERROR_REPORT {
            Err(RtrError::ErrorReport(read_u16(pdu, 2)))
        } else {
            Ok(RtrAction::Nothing)
        }
    }
}

} // verus!
