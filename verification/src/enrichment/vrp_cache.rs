//! Validated ROA Payloads and RPKI route origin validation (RFC 6811).

use vstd::prelude::*;
use crate::cidr::{IpNetwork, NetModel, net_contains_net};
use crate::rib::table::bytes_same;

verus! {

/// One Validated ROA Payload: a network, the longest prefix length it
/// authorizes, and the origin AS.
#[derive(Clone, Copy, Debug)]
pub struct VrpEntry {
    pub prefix: IpNetwork,
    pub max_len: u8,
    pub origin_asn: u32,
}

/// Model of a VRP.
pub struct VrpModel {
    pub prefix: NetModel,
    pub max_len: u8,
    pub origin_asn: u32,
}

impl View for VrpEntry {
    type V = VrpModel;

    open spec fn view(&self) -> VrpModel {
        VrpModel { prefix: self.prefix@, max_len: self.max_len, origin_asn: self.origin_asn }
    }
}

pub open spec fn vrps_view(v: Seq<VrpEntry>) -> Seq<VrpModel> {
    v.map_values(|e: VrpEntry| e@)
}

/// RPKI validation state of a (prefix, origin) pair.
#[derive(Clone, Copy, Debug, PartialEq, Eq, Structural)]
pub enum RpkiState {
    /// A covering VRP has the origin and a max length at least the prefix's.
    Valid,
    /// Some VRP covers the prefix, but none with its origin and length.
    Invalid,
    /// No VRP covers the prefix.
    NotFound,
}

impl RpkiState {
    /// "valid", "invalid" or "not-found".
    pub fn to_text(&self) -> (r: &'static str)
        ensures
            r@ == rpki_text(*self),
    {
        match self {
            RpkiState::Valid => "valid",
            RpkiState::Invalid => "invalid",
            RpkiState::NotFound => "not-found",
        }
    }
}

pub open spec fn rpki_text(s: RpkiState) -> Seq<char> {
    match s {
        RpkiState::Valid => "valid"@,
        RpkiState::Invalid => "invalid"@,
        RpkiState::NotFound => "not-found"@,
    }
}

/// Whether VRP `e` covers the announced network `a` (same network or a
/// more specific one).
pub open spec fn covers(e: VrpEntry, a: NetModel) -> bool {
    net_contains_net(e.prefix@, a)
}

/// Whether VRP `e` covers `a` and authorizes it for `origin`.
pub open spec fn authorizes(e: VrpEntry, a: NetModel, origin: u32) -> bool {
    covers(e, a) && e.origin_asn == origin && e.max_len >= a.len
}

/// The RFC 6811 validation state of `(a, origin)` against the VRPs `es`.
pub open spec fn rpki_state(es: Seq<VrpEntry>, a: NetModel, origin: u32) -> RpkiState {
    if exists|i: int| 0 <= i < es.len() && authorizes(#[trigger] es[i], a, origin) {
        RpkiState::Valid
    } else if exists|i: int| 0 <= i < es.len() && covers(#[trigger] es[i], a) {
        RpkiState::Invalid
    } else {
        RpkiState::NotFound
    }
}

/// Whether `e` is the VRP `r` names for removal: same network and origin.
pub open spec fn same_vrp(e: VrpEntry, r: VrpEntry) -> bool {
    e.prefix@ == r.prefix@ && e.origin_asn == r.origin_asn
}

/// The VRPs after removing every one named by each of `rs`, in order.
pub open spec fn remove_vrps(es: Seq<VrpEntry>, rs: Seq<VrpEntry>) -> Seq<VrpEntry>
    decreases rs.len(),
{
    if rs.len() == 0 {
        es
    } else {
        let r = rs.last();
        remove_vrps(es, rs.drop_last()).filter(|e: VrpEntry| !same_vrp(e, r))
    }
}

pub open spec fn all_wf(es: Seq<VrpEntry>) -> bool {
    forall|i: int| 0 <= i < es.len() ==> (#[trigger] es[i]).prefix.wf()
}

/// The VRP table fed by an RTR session, with the serial of its data.
pub struct VrpCache {
    entries: Vec<VrpEntry>,
    serial: u32,
}

impl VrpCache {
    #[verifier::type_invariant]
    spec fn inv(&self) -> bool {
        all_wf(self.entries@)
    }

    /// The VRPs, in the order they were loaded.
    pub closed spec fn entries(&self) -> Seq<VrpEntry> {
        self.entries@
    }

    /// The serial of the data.
    pub closed spec fn serial_spec(&self) -> u32 {
        self.serial
    }

    /// An empty table with serial 0.
    pub fn new() -> (r: VrpCache)
        ensures
            r.entries().len() == 0,
            r.serial_spec() == 0,
    {
        VrpCache { entries: Vec::new(), serial: 0 }
    }

    /// Replaces the whole table (a cache reset from RTR).
    pub fn reset(&mut self, entries: Vec<VrpEntry>, serial: u32)
        requires
            all_wf(entries@),
        ensures
            final(self).entries() == entries@,
            final(self).serial_spec() == serial,
    {
        self.entries = entries;
        self.serial = serial;
    }

    /// Applies an incremental update: removes the VRPs named by `removes`
    /// (same network and origin), then appends `adds`.
    pub fn apply_delta(&mut self, adds: Vec<VrpEntry>, removes: Vec<VrpEntry>, serial: u32)
        requires
            all_wf(adds@),
        ensures
            final(self).entries() == remove_vrps(old(self).entries(), removes@) + adds@,
            final(self).serial_spec() == serial,
    {
        proof {
            use_type_invariant(&*self);
        }
        let ghost e0 = self.entries@;
        let mut kept: Vec<VrpEntry> = self.entries.clone();
        assert(kept@ =~= e0);
        let mut k: usize = 0;
        while k < removes.len()
            invariant
                k <= removes@.len(),
                kept@ == remove_vrps(e0, removes@.subrange(0, k as int)),
                all_wf(kept@),
            decreases removes@.len() - k,
        {
            let r = removes[k];
            let ghost before = kept@;
            let mut next: Vec<VrpEntry> = Vec::new();
            let mut i: usize = 0;
            while i < kept.len()
                invariant
                    i <= kept@.len(),
                    kept@ == before,
                    all_wf(before),
                    next@ == before.subrange(0, i as int).filter(|e: VrpEntry| !same_vrp(e, r)),
                    all_wf(next@),
                decreases kept@.len() - i,
            {
                proof {
                    crate::rib::table::lemma_filter_step(before, |e: VrpEntry| !same_vrp(e, r), i as int);
                }
                let e = kept[i];
                if !(same_network(&e.prefix, &r.prefix) && e.origin_asn == r.origin_asn) {
                    next.push(e);
                }
                i = i + 1;
            }
            assert(before.subrange(0, before.len() as int) =~= before);
            proof {
                assert(removes@.subrange(0, k + 1).drop_last() =~= removes@.subrange(0, k as int));
                assert(removes@.subrange(0, k + 1).last() == r);
            }
            kept = next;
            k = k + 1;
        }
        assert(removes@.subrange(0, removes@.len() as int) =~= removes@);
        let mut i: usize = 0;
        let ghost base = kept@;
        while i < adds.len()
            invariant
                i <= adds@.len(),
                kept@ == base + adds@.subrange(0, i as int),
                all_wf(kept@),
                all_wf(adds@),
            decreases adds@.len() - i,
        {
            kept.push(adds[i]);
            i = i + 1;
            assert(kept@ =~= base + adds@.subrange(0, i as int));
        }
        assert(adds@.subrange(0, adds@.len() as int) =~= adds@);
        self.entries = kept;
        self.serial = serial;
    }

    /// The serial of the data.
    pub fn serial(&self) -> (r: u32)
        ensures
            r == self.serial_spec(),
    {
        self.serial
    }

    /// Number of VRPs.
    pub fn len(&self) -> (r: usize)
        ensures
            r == self.entries().len(),
    {
        self.entries.len()
    }

    /// Whether there are no VRPs.
    pub fn is_empty(&self) -> (r: bool)
        ensures
            r == (self.entries().len() == 0),
    {
        self.entries.len() == 0
    }

    /// Validates `(announced, origin_asn)` against the table (RFC 6811).
    pub fn validate(&self, announced: &IpNetwork, origin_asn: u32) -> (r: RpkiState)
        ensures
            r == rpki_state(self.entries(), announced@, origin_asn),
    {
        proof {
            use_type_invariant(self);
        }
        let ghost es = self.entries@;
        let a_len = announced.prefix_len();
        let mut covered = false;
        let mut i: usize = 0;
        while i < self.entries.len()
            invariant
                i <= es.len(),
                es == self.entries@,
                all_wf(es),
                a_len == announced@.len,
                covered == exists|j: int| 0 <= j < i && covers(#[trigger] es[j], announced@),
                forall|j: int| 0 <= j < i ==> !authorizes(#[trigger] es[j], announced@, origin_asn),
            decreases es.len() - i,
        {
            let e = &self.entries[i];
            if e.prefix.contains_net(announced) {
                if e.origin_asn == origin_asn && e.max_len >= a_len {
                    assert(authorizes(es[i as int], announced@, origin_asn));
                    return RpkiState::Valid;
                }
                covered = true;
            }
            i = i + 1;
        }
        if covered {
            RpkiState::Invalid
        } else {
            RpkiState::NotFound
        }
    }
}

/// Whether two networks are the same (family, address as written, length).
pub fn same_network(a: &IpNetwork, b: &IpNetwork) -> (r: bool)
    ensures
        r == (a@ == b@),
{
    match (a, b) {
        (IpNetwork::V4(x), IpNetwork::V4(y)) => x.prefix_len == y.prefix_len && bytes_same(
            &x.addr,
            &y.addr,
        ),
        (IpNetwork::V6(x), IpNetwork::V6(y)) => x.prefix_len == y.prefix_len && bytes_same(
            &x.addr,
            &y.addr,
        ),
        _ => false,
    }
}

} // verus!
