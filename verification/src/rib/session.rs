//! BMP speakers and the BGP peers they report on.

use vstd::prelude::*;
use crate::bgp::types::{BgpCapability, CapabilityModel};
use crate::bmp::types::{PeerHeader, RibType};
use crate::net::{IpAddress, IpModel};

verus! {

/// A point in time: seconds since the Unix epoch and nanoseconds.
#[derive(Clone, Copy, Debug, PartialEq, Eq, Structural)]
pub struct Timestamp {
    pub secs: i64,
    pub nanos: u32,
}

/// Lifecycle state of a BGP peer as seen through BMP.
#[derive(Clone, Copy, Debug, PartialEq, Eq, Structural)]
pub enum PeerState {
    Up,
    Down,
    /// The speaker is connected but no Peer Up was received yet.
    Unknown,
}

/// A BGP peer session tracked by the RIB engine.
#[derive(Debug)]
pub struct PeerSession {
    pub peer_address: IpAddress,
    pub peer_as: u32,
    pub peer_bgp_id: [u8; 4],
    pub local_as: u32,
    pub hold_time: u16,
    pub state: PeerState,
    pub up_at: Option<Timestamp>,
    pub down_at: Option<Timestamp>,
    pub capabilities: Vec<BgpCapability>,
    /// Routes held per RIB type.
    pub route_counts: Vec<(RibType, usize)>,
    pub flap_count: u32,
    /// Whether routes are kept (marked stale) rather than deleted on Peer Down.
    pub llgr_active: bool,
    /// How long stale routes are kept, in seconds.
    pub llgr_stale_secs: u32,
}

impl PeerSession {
    /// A session in state `Unknown` for the peer of `hdr`.
    pub fn new(hdr: &PeerHeader) -> (r: PeerSession)
        ensures
            r.peer_address == hdr.peer_address,
            r.peer_as == hdr.peer_as,
            r.peer_bgp_id == hdr.peer_bgp_id,
            r.local_as == 0,
            r.hold_time == 0,
            r.state == PeerState::Unknown,
            r.up_at is None,
            r.down_at is None,
            r.capabilities@.len() == 0,
            r.route_counts@.len() == 0,
            r.flap_count == 0,
            !r.llgr_active,
            r.llgr_stale_secs == 0,
    {
        PeerSession {
            peer_address: hdr.peer_address,
            peer_as: hdr.peer_as,
            peer_bgp_id: hdr.peer_bgp_id,
            local_as: 0,
            hold_time: 0,
            state: PeerState::Unknown,
            up_at: None,
            down_at: None,
            capabilities: Vec::new(),
            route_counts: Vec::new(),
            flap_count: 0,
            llgr_active: false,
            llgr_stale_secs: 0,
        }
    }

    /// The session after a Peer Up at `at`; a session that was already up
    /// counts one more flap.
    pub open spec fn after_up(
        self,
        local_as: u32,
        hold_time: u16,
        caps: Vec<BgpCapability>,
        at: Timestamp,
    ) -> PeerSession {
        PeerSession {
            state: PeerState::Up,
            up_at: Some(at),
            local_as,
            hold_time,
            capabilities: caps,
            flap_count: if self.state == PeerState::Up {
                (self.flap_count + 1) as u32
            } else {
                self.flap_count
            },
            ..self
        }
    }

    /// Records a Peer Up.
    pub fn on_up(&mut self, local_as: u32, hold_time: u16, caps: Vec<BgpCapability>, at: Timestamp)
        requires
            old(self).state == PeerState::Up ==> old(self).flap_count < u32::MAX,
        ensures
            *final(self) == old(self).after_up(local_as, hold_time, caps, at),
    {
        if self.state == PeerState::Up {
            self.flap_count = self.flap_count + 1;
        }
        self.state = PeerState::Up;
        self.up_at = Some(at);
        self.local_as = local_as;
        self.hold_time = hold_time;
        self.capabilities = caps;
    }

    /// Whether `b` is `self` with only its state, down time and route counts
    /// changed.
    pub open spec fn same_but_down_fields(self, b: PeerSession) -> bool {
        &&& b.peer_address == self.peer_address
        &&& b.peer_as == self.peer_as
        &&& b.peer_bgp_id == self.peer_bgp_id
        &&& b.local_as == self.local_as
        &&& b.hold_time == self.hold_time
        &&& b.up_at == self.up_at
        &&& b.capabilities == self.capabilities
        &&& b.flap_count == self.flap_count
        &&& b.llgr_active == self.llgr_active
        &&& b.llgr_stale_secs == self.llgr_stale_secs
    }

    /// The session after a Peer Down at `at` (state, time, no routes counted).
    pub open spec fn is_down_of(self, before: PeerSession, at: Timestamp) -> bool {
        &&& before.same_but_down_fields(self)
        &&& self.state == PeerState::Down
        &&& self.down_at == Some(at)
        &&& self.route_counts@.len() == 0
    }

    /// Records a Peer Down.
    pub fn on_down(&mut self, at: Timestamp)
        ensures
            final(self).is_down_of(*old(self), at),
    {
        self.state = PeerState::Down;
        self.down_at = Some(at);
        self.route_counts = Vec::new();
    }

    /// Whole seconds elapsed from Peer Up to `now` (rounded toward zero),
    /// when the peer came up.
    pub fn uptime_secs(&self, now: Timestamp) -> (r: Option<i64>)
        requires
            match self.up_at {
                Some(t) => time_in_range(t),
                None => true,
            },
            time_in_range(now),
        ensures
            r == match self.up_at {
                Some(t) => Some(whole_secs_between(t, now) as i64),
                None => None,
            },
    {
        match self.up_at {
            None => None,
            Some(t) => {
                let ds: i64 = now.secs - t.secs;
                let dn: i64 = now.nanos as i64 - t.nanos as i64;
                let adj: i64 = if ds > 0 && dn < 0 {
                    -1
                } else if ds < 0 && dn > 0 {
                    1
                } else {
                    0
                };
                Some(ds + adj)
            },
        }
    }
}

/// Within about 146 billion years of the epoch, with nanoseconds below one
/// second.
pub open spec fn time_in_range(t: Timestamp) -> bool {
    -0x3fff_ffff_ffff_ffff <= t.secs <= 0x3fff_ffff_ffff_ffff && t.nanos < 1_000_000_000
}

/// The time from `a` to `b` in whole seconds, rounded toward zero (with
/// nanoseconds below one second).
pub open spec fn whole_secs_between(a: Timestamp, b: Timestamp) -> int {
    let ds = b.secs - a.secs;
    let dn = b.nanos - a.nanos;
    if ds > 0 && dn < 0 {
        ds - 1
    } else if ds < 0 && dn > 0 {
        ds + 1
    } else {
        ds
    }
}

/// Number of peers in state `Up`.
pub open spec fn up_count(peers: Seq<PeerSession>) -> nat
    decreases peers.len(),
{
    if peers.len() == 0 {
        0
    } else {
        up_count(peers.drop_last()) + if peers.last().state == PeerState::Up {
            1nat
        } else {
            0nat
        }
    }
}

/// Sum of a list of route counts.
pub open spec fn counts_sum(c: Seq<(RibType, usize)>) -> nat
    decreases c.len(),
{
    if c.len() == 0 {
        0
    } else {
        counts_sum(c.drop_last()) + (c.last().1 as nat)
    }
}

/// Sum of the route counts of all peers.
pub open spec fn routes_sum(peers: Seq<PeerSession>) -> nat
    decreases peers.len(),
{
    if peers.len() == 0 {
        0
    } else {
        routes_sum(peers.drop_last()) + counts_sum(peers.last().route_counts@)
    }
}

/// Finds the first peer with address `a`.
pub fn find_peer(peers: &Vec<PeerSession>, a: &IpAddress) -> (r: Option<usize>)
    ensures
        match r {
            Some(i) => peer_model_index(peers_view(peers@), a@) == Some(i as int) && i < peers@.len(),
            None => peer_model_index(peers_view(peers@), a@) is None,
        },
{
    let ghost m = peers_view(peers@);
    let mut i: usize = 0;
    while i < peers.len()
        invariant
            i <= peers@.len(),
            m == peers_view(peers@),
            forall|j: int| 0 <= j < i ==> (#[trigger] m[j]).address != a@,
        decreases peers@.len() - i,
    {
        if crate::rib::table::same_ip(&peers[i].peer_address, a) {
            assert(m[i as int].address == a@);
            return Some(i);
        }
        assert(m[i as int].address != a@);
        i = i + 1;
    }
    None
}

/// A BMP speaker (router) that has connected.
#[derive(Debug)]
pub struct BmpSession {
    pub speaker_addr: IpAddress,
    pub sys_name: Option<String>,
    pub sys_descr: Option<String>,
    pub connected_at: Timestamp,
    /// Peers, at most one per address.
    pub peers: Vec<PeerSession>,
}

impl BmpSession {
    /// A speaker session with no peers.
    pub fn new(speaker_addr: IpAddress, at: Timestamp) -> (r: BmpSession)
        ensures
            r.speaker_addr == speaker_addr,
            r.sys_name is None,
            r.sys_descr is None,
            r.connected_at == at,
            r.peers@.len() == 0,
    {
        BmpSession { speaker_addr, sys_name: None, sys_descr: None, connected_at: at, peers: Vec::new() }
    }

    /// Number of peers.
    pub fn peer_count(&self) -> (r: usize)
        ensures
            r == self.peers@.len(),
    {
        self.peers.len()
    }

    /// Number of peers that are up.
    pub fn up_peer_count(&self) -> (r: usize)
        ensures
            r == up_count(self.peers@),
    {
        let mut n: usize = 0;
        let mut i: usize = 0;
        while i < self.peers.len()
            invariant
                i <= self.peers@.len(),
                n == up_count(self.peers@.subrange(0, i as int)),
                n <= i,
            decreases self.peers@.len() - i,
        {
            proof {
                assert(self.peers@.subrange(0, i + 1).drop_last() =~= self.peers@.subrange(0, i as int));
            }
            if self.peers[i].state == PeerState::Up {
                n = n + 1;
            }
            i = i + 1;
        }
        assert(self.peers@.subrange(0, self.peers@.len() as int) =~= self.peers@);
        n
    }

    /// Total routes counted over all peers.
    pub fn total_routes(&self) -> (r: usize)
        requires
            routes_sum(self.peers@) <= usize::MAX,
        ensures
            r == routes_sum(self.peers@),
    {
        let mut n: usize = 0;
        let mut i: usize = 0;
        while i < self.peers.len()
            invariant
                i <= self.peers@.len(),
                routes_sum(self.peers@) <= usize::MAX,
                n == routes_sum(self.peers@.subrange(0, i as int)),
            decreases self.peers@.len() - i,
        {
            proof {
                assert(self.peers@.subrange(0, i + 1).drop_last() =~= self.peers@.subrange(0, i as int));
                lemma_routes_sum_prefix(self.peers@, i + 1);
            }
            let counts = &self.peers[i].route_counts;
            let mut j: usize = 0;
            let ghost base = n;
            while j < counts.len()
                invariant
                    j <= counts@.len(),
                    n == base + counts_sum(counts@.subrange(0, j as int)),
                    base + counts_sum(counts@) <= usize::MAX,
                decreases counts@.len() - j,
            {
                proof {
                    assert(counts@.subrange(0, j + 1).drop_last() =~= counts@.subrange(0, j as int));
                    lemma_counts_sum_prefix(counts@, j + 1);
                }
                n = n + counts[j].1;
                j = j + 1;
            }
            assert(counts@.subrange(0, counts@.len() as int) =~= counts@);
            i = i + 1;
        }
        assert(self.peers@.subrange(0, self.peers@.len() as int) =~= self.peers@);
        n
    }
}

proof fn lemma_counts_sum_prefix(c: Seq<(RibType, usize)>, k: int)
    requires
        0 <= k <= c.len(),
    ensures
        counts_sum(c.subrange(0, k)) <= counts_sum(c),
    decreases c.len() - k,
{
    if k < c.len() {
        lemma_counts_sum_prefix(c, k + 1);
        assert(c.subrange(0, k + 1).drop_last() =~= c.subrange(0, k));
    } else {
        assert(c.subrange(0, k) =~= c);
    }
}

proof fn lemma_routes_sum_prefix(p: Seq<PeerSession>, k: int)
    requires
        0 <= k <= p.len(),
    ensures
        routes_sum(p.subrange(0, k)) <= routes_sum(p),
    decreases p.len() - k,
{
    if k < p.len() {
        lemma_routes_sum_prefix(p, k + 1);
        assert(p.subrange(0, k + 1).drop_last() =~= p.subrange(0, k));
    } else {
        assert(p.subrange(0, k) =~= p);
    }
}


/// Model of a peer session.
pub struct PeerModel {
    pub address: IpModel,
    pub peer_as: u32,
    pub bgp_id: Seq<u8>,
    pub local_as: u32,
    pub hold_time: u16,
    pub state: PeerState,
    pub up_at: Option<Timestamp>,
    pub down_at: Option<Timestamp>,
    pub capabilities: Seq<CapabilityModel>,
    pub route_counts: Seq<(RibType, usize)>,
    pub flap_count: u32,
    pub llgr_active: bool,
    pub llgr_stale_secs: u32,
}

pub open spec fn caps_view(v: Seq<BgpCapability>) -> Seq<CapabilityModel> {
    v.map_values(|c: BgpCapability| c@)
}

impl View for PeerSession {
    type V = PeerModel;

    open spec fn view(&self) -> PeerModel {
        PeerModel {
            address: self.peer_address@,
            peer_as: self.peer_as,
            bgp_id: self.peer_bgp_id@,
            local_as: self.local_as,
            hold_time: self.hold_time,
            state: self.state,
            up_at: self.up_at,
            down_at: self.down_at,
            capabilities: caps_view(self.capabilities@),
            route_counts: self.route_counts@,
            flap_count: self.flap_count,
            llgr_active: self.llgr_active,
            llgr_stale_secs: self.llgr_stale_secs,
        }
    }
}

/// Model of a speaker session.
pub struct SessionModel {
    pub speaker: IpModel,
    pub sys_name: Option<Seq<char>>,
    pub sys_descr: Option<Seq<char>>,
    pub connected_at: Timestamp,
    pub peers: Seq<PeerModel>,
}

pub open spec fn peers_view(v: Seq<PeerSession>) -> Seq<PeerModel> {
    v.map_values(|p: PeerSession| p@)
}

pub open spec fn opt_chars(o: Option<String>) -> Option<Seq<char>> {
    match o {
        Some(s) => Some(s@),
        None => None,
    }
}

impl View for BmpSession {
    type V = SessionModel;

    open spec fn view(&self) -> SessionModel {
        SessionModel {
            speaker: self.speaker_addr@,
            sys_name: opt_chars(self.sys_name),
            sys_descr: opt_chars(self.sys_descr),
            connected_at: self.connected_at,
            peers: peers_view(self.peers@),
        }
    }
}

/// The model of a new session for the peer of `hdr`.
pub open spec fn new_peer_model(hdr: PeerHeader) -> PeerModel {
    PeerModel {
        address: hdr.peer_address@,
        peer_as: hdr.peer_as,
        bgp_id: hdr.peer_bgp_id@,
        local_as: 0,
        hold_time: 0,
        state: PeerState::Unknown,
        up_at: None,
        down_at: None,
        capabilities: Seq::empty(),
        route_counts: Seq::empty(),
        flap_count: 0,
        llgr_active: false,
        llgr_stale_secs: 0,
    }
}

/// The model of a peer after a Peer Up.
pub open spec fn peer_up_model(
    p: PeerModel,
    local_as: u32,
    hold_time: u16,
    caps: Seq<CapabilityModel>,
    at: Timestamp,
) -> PeerModel {
    PeerModel {
        state: PeerState::Up,
        up_at: Some(at),
        local_as,
        hold_time,
        capabilities: caps,
        flap_count: if p.state == PeerState::Up {
            (p.flap_count + 1) as u32
        } else {
            p.flap_count
        },
        ..p
    }
}

/// The model of a peer after a Peer Down.
pub open spec fn peer_down_model(p: PeerModel, at: Timestamp) -> PeerModel {
    PeerModel { state: PeerState::Down, down_at: Some(at), route_counts: Seq::empty(), ..p }
}

/// The model of a new speaker session.
pub open spec fn new_session_model(speaker: IpModel, at: Timestamp) -> SessionModel {
    SessionModel { speaker, sys_name: None, sys_descr: None, connected_at: at, peers: Seq::empty() }
}

/// Index of the first peer model with address `a`.
pub open spec fn peer_model_index(v: Seq<PeerModel>, a: IpModel) -> Option<int> {
    if exists|i: int| 0 <= i < v.len() && (#[trigger] v[i]).address == a {
        Some(
            choose|i: int|
                0 <= i < v.len() && v[i].address == a && forall|j: int|
                    0 <= j < i ==> (#[trigger] v[j]).address != a,
        )
    } else {
        None
    }
}

/// Replace the peer with address `a`, or add it.
pub open spec fn put_peer(v: Seq<PeerModel>, a: IpModel, p: PeerModel) -> Seq<PeerModel> {
    match peer_model_index(v, a) {
        Some(i) => v.update(i, p),
        None => v.push(p),
    }
}

} // verus!
