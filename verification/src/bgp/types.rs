//! Address families, prefixes, AS paths, communities and path attributes.

use vstd::prelude::*;
use vstd::string::StringExecFns;
use crate::text::{dec, hex2, push_dec, push_hex2};
use crate::wire::{be16, be32, read_u32};
use crate::net::{ipv4_text, push_ipv4};
use crate::error::Error;

verus! {

/// Address Family Identifier.
#[derive(Clone, Copy, Debug, PartialEq, Eq, Structural)]
pub enum Afi {
    Ipv4,
    Ipv6,
    L2Vpn,
    BgpLs,
    Unknown(u16),
}

/// The AFI named by a 16-bit wire code.
pub open spec fn afi_of(v: u16) -> Afi {
    if v == 1 { Afi::Ipv4 }
    else if v == 2 { Afi::Ipv6 }
    else if v == 25 { Afi::L2Vpn }
    else if v == 16388 { Afi::BgpLs }
    else { Afi::Unknown(v) }
}

/// The 16-bit wire code of an AFI.
pub open spec fn afi_code(a: Afi) -> u16 {
    match a {
        Afi::Ipv4 => 1,
        Afi::Ipv6 => 2,
        Afi::L2Vpn => 25,
        Afi::BgpLs => 16388,
        Afi::Unknown(v) => v,
    }
}

impl Afi {
    /// Decodes a wire AFI code.
    pub fn from_u16(v: u16) -> (r: Afi)
        ensures
            r == afi_of(v),
    {
        if v == 1 { Afi::Ipv4 }
        else if v == 2 { Afi::Ipv6 }
        else if v == 25 { Afi::L2Vpn }
        else if v == 16388 { Afi::BgpLs }
        else { Afi::Unknown(v) }
    }

    /// The wire AFI code.
    pub fn as_u16(self) -> (r: u16)
        ensures
            r == afi_code(self),
    {
        match self {
            Afi::Ipv4 => 1,
            Afi::Ipv6 => 2,
            Afi::L2Vpn => 25,
            Afi::BgpLs => 16388,
            Afi::Unknown(v) => v,
        }
    }
}

/// Decoding a wire AFI code and encoding it again gives back the code.
pub proof fn lemma_afi_code_roundtrip(v: u16)
    ensures
        afi_code(afi_of(v)) == v,
{
}

} // verus!

verus! {

/// Subsequent Address Family Identifier.
#[derive(Clone, Copy, Debug, PartialEq, Eq, Structural)]
pub enum Safi {
    Unicast,
    Multicast,
    MplsVpnMulticast,
    LabeledUnicast,
    MplsVpn,
    Evpn,
    BgpLs,
    BgpLsSrv6,
    SrPolicy,
    Flowspec,
    FlowspecVpn,
    Vpls,
    RouteTargetConstraint,
    McastVpn,
    Unknown(u8),
}

/// The SAFI named by an 8-bit wire code.
pub open spec fn safi_of(v: u8) -> Safi {
    if v == 1 { Safi::Unicast }
    else if v == 2 { Safi::Multicast }
    else if v == 4 { Safi::LabeledUnicast }
    else if v == 5 { Safi::MplsVpnMulticast }
    else if v == 65 { Safi::Vpls }
    else if v == 70 { Safi::Evpn }
    else if v == 71 { Safi::BgpLs }
    else if v == 72 { Safi::BgpLsSrv6 }
    else if v == 73 { Safi::SrPolicy }
    else if v == 128 { Safi::MplsVpn }
    else if v == 129 { Safi::McastVpn }
    else if v == 132 { Safi::RouteTargetConstraint }
    else if v == 133 { Safi::Flowspec }
    else if v == 134 { Safi::FlowspecVpn }
    else { Safi::Unknown(v) }
}

/// The 8-bit wire code of a SAFI.
pub open spec fn safi_code(s: Safi) -> u8 {
    match s {
        Safi::Unicast => 1,
        Safi::Multicast => 2,
        Safi::LabeledUnicast => 4,
        Safi::MplsVpnMulticast => 5,
        Safi::Vpls => 65,
        Safi::Evpn => 70,
        Safi::BgpLs => 71,
        Safi::BgpLsSrv6 => 72,
        Safi::SrPolicy => 73,
        Safi::MplsVpn => 128,
        Safi::McastVpn => 129,
        Safi::RouteTargetConstraint => 132,
        Safi::Flowspec => 133,
        Safi::FlowspecVpn => 134,
        Safi::Unknown(v) => v,
    }
}

impl Safi {
    /// Decodes a wire SAFI code.
    pub fn from_u8(v: u8) -> (r: Safi)
        ensures
            r == safi_of(v),
    {
        match v {
            1 => Safi::Unicast,
            2 => Safi::Multicast,
            4 => Safi::LabeledUnicast,
            5 => Safi::MplsVpnMulticast,
            65 => Safi::Vpls,
            70 => Safi::Evpn,
            71 => Safi::BgpLs,
            72 => Safi::BgpLsSrv6,
            73 => Safi::SrPolicy,
            128 => Safi::MplsVpn,
            129 => Safi::McastVpn,
            132 => Safi::RouteTargetConstraint,
            133 => Safi::Flowspec,
            134 => Safi::FlowspecVpn,
            _ => Safi::Unknown(v),
        }
    }

    /// The wire SAFI code.
    pub fn as_u8(self) -> (r: u8)
        ensures
            r == safi_code(self),
    {
        match self {
            Safi::Unicast => 1,
            Safi::Multicast => 2,
            Safi::LabeledUnicast => 4,
            Safi::MplsVpnMulticast => 5,
            Safi::Vpls => 65,
            Safi::Evpn => 70,
            Safi::BgpLs => 71,
            Safi::BgpLsSrv6 => 72,
            Safi::SrPolicy => 73,
            Safi::MplsVpn => 128,
            Safi::McastVpn => 129,
            Safi::RouteTargetConstraint => 132,
            Safi::Flowspec => 133,
            Safi::FlowspecVpn => 134,
            Safi::Unknown(v) => v,
        }
    }
}

/// Decoding a wire SAFI code and encoding it again gives back the code.
pub proof fn lemma_safi_code_roundtrip(v: u8)
    ensures
        safi_code(safi_of(v)) == v,
{
}

/// Combined AFI/SAFI address family.
#[derive(Clone, Copy, Debug, PartialEq, Eq, Structural)]
pub struct AfiSafi {
    pub afi: Afi,
    pub safi: Safi,
}

/// The address family named by a wire AFI and SAFI.
pub open spec fn afi_safi_of(afi: u16, safi: u8) -> AfiSafi {
    AfiSafi { afi: afi_of(afi), safi: safi_of(safi) }
}

impl AfiSafi {
    /// Builds the address family from wire codes.
    pub fn new(afi: u16, safi: u8) -> (r: AfiSafi)
        ensures
            r == afi_safi_of(afi, safi),
    {
        AfiSafi { afi: Afi::from_u16(afi), safi: Safi::from_u8(safi) }
    }

    /// IPv4 unicast (1/1).
    pub fn ipv4_unicast() -> (r: AfiSafi)
        ensures
            r == afi_safi_of(1, 1),
    {
        AfiSafi::new(1, 1)
    }

    /// IPv6 unicast (2/1).
    pub fn ipv6_unicast() -> (r: AfiSafi)
        ensures
            r == afi_safi_of(2, 1),
    {
        AfiSafi::new(2, 1)
    }

    /// IPv4 L3VPN (1/128).
    pub fn ipv4_vpn() -> (r: AfiSafi)
        ensures
            r == afi_safi_of(1, 128),
    {
        AfiSafi::new(1, 128)
    }

    /// IPv6 L3VPN (2/128).
    pub fn ipv6_vpn() -> (r: AfiSafi)
        ensures
            r == afi_safi_of(2, 128),
    {
        AfiSafi::new(2, 128)
    }

    /// L2VPN EVPN (25/70).
    pub fn evpn() -> (r: AfiSafi)
        ensures
            r == afi_safi_of(25, 70),
    {
        AfiSafi::new(25, 70)
    }

    /// IPv4 labeled unicast (1/4).
    pub fn ipv4_labeled() -> (r: AfiSafi)
        ensures
            r == afi_safi_of(1, 4),
    {
        AfiSafi::new(1, 4)
    }

    /// IPv6 labeled unicast (2/4).
    pub fn ipv6_labeled() -> (r: AfiSafi)
        ensures
            r == afi_safi_of(2, 4),
    {
        AfiSafi::new(2, 4)
    }
}

/// Text name of an address family ("ipv4-unicast", ..., or "afiN-safiM").
pub open spec fn afi_safi_text(a: AfiSafi) -> Seq<char> {
    match (a.afi, a.safi) {
        (Afi::Ipv4, Safi::Unicast) => "ipv4-unicast"@,
        (Afi::Ipv6, Safi::Unicast) => "ipv6-unicast"@,
        (Afi::Ipv4, Safi::Multicast) => "ipv4-multicast"@,
        (Afi::Ipv6, Safi::Multicast) => "ipv6-multicast"@,
        (Afi::Ipv4, Safi::LabeledUnicast) => "ipv4-labeled-unicast"@,
        (Afi::Ipv6, Safi::LabeledUnicast) => "ipv6-labeled-unicast"@,
        (Afi::Ipv4, Safi::MplsVpn) => "ipv4-vpn"@,
        (Afi::Ipv6, Safi::MplsVpn) => "ipv6-vpn"@,
        (Afi::L2Vpn, Safi::Evpn) => "l2vpn-evpn"@,
        (Afi::Ipv4, Safi::Flowspec) => "ipv4-flowspec"@,
        (Afi::Ipv6, Safi::Flowspec) => "ipv6-flowspec"@,
        _ => "afi"@ + dec(afi_code(a.afi) as nat) + "-safi"@ + dec(safi_code(a.safi) as nat),
    }
}

impl AfiSafi {
    /// Renders the address family name.
    pub fn to_text(&self) -> (r: String)
        ensures
            r@ == afi_safi_text(*self),
    {
        let s = match (self.afi, self.safi) {
            (Afi::Ipv4, Safi::Unicast) => "ipv4-unicast",
            (Afi::Ipv6, Safi::Unicast) => "ipv6-unicast",
            (Afi::Ipv4, Safi::Multicast) => "ipv4-multicast",
            (Afi::Ipv6, Safi::Multicast) => "ipv6-multicast",
            (Afi::Ipv4, Safi::LabeledUnicast) => "ipv4-labeled-unicast",
            (Afi::Ipv6, Safi::LabeledUnicast) => "ipv6-labeled-unicast",
            (Afi::Ipv4, Safi::MplsVpn) => "ipv4-vpn",
            (Afi::Ipv6, Safi::MplsVpn) => "ipv6-vpn",
            (Afi::L2Vpn, Safi::Evpn) => "l2vpn-evpn",
            (Afi::Ipv4, Safi::Flowspec) => "ipv4-flowspec",
            (Afi::Ipv6, Safi::Flowspec) => "ipv6-flowspec",
            _ => {
                let mut out = String::from_str("afi");
                push_dec(&mut out, self.afi.as_u16() as u64);
                out.append("-safi");
                push_dec(&mut out, self.safi.as_u8() as u64);
                return out;
            },
        };
        String::from_str(s)
    }
}

} // verus!

verus! {

/// Lifecycle state of a route under Long-Lived Graceful Restart.
/// Normal -> StaleMarked on peer down with LLGR active, StaleMarked -> Deleted
/// when the stale timer expires, any -> Normal on re-announcement.
#[derive(Clone, Copy, Debug, PartialEq, Eq, Structural)]
pub enum LlgrState {
    Normal,
    StaleMarked,
    Deleted,
}

impl Default for LlgrState {
    fn default() -> (r: LlgrState)
        ensures
            r == LlgrState::Normal,
    {
        LlgrState::Normal
    }
}

/// An IPv4 network: address and prefix length (host bits zero when built by
/// the decoders).
#[derive(Clone, Copy, Debug, PartialEq, Eq, Hash)]
pub struct Ipv4Net {
    pub addr: [u8; 4],
    pub prefix_len: u8,
}

/// An IPv6 network: address and prefix length.
#[derive(Clone, Copy, Debug, PartialEq, Eq, Hash)]
pub struct Ipv6Net {
    pub addr: [u8; 16],
    pub prefix_len: u8,
}

/// Route Distinguisher (RFC 4364): 8 raw bytes.
#[derive(Clone, Copy, Debug, PartialEq, Eq, Hash)]
pub struct RouteDistinguisher(pub [u8; 8]);

impl RouteDistinguisher {
    /// The all-zero distinguisher.
    pub fn zero() -> (r: RouteDistinguisher)
        ensures
            forall|i: int| 0 <= i < 8 ==> r.0@[i] == 0,
    {
        RouteDistinguisher([0u8; 8])
    }

    /// Whether all eight bytes are zero.
    pub fn is_zero(&self) -> (r: bool)
        ensures
            r == (forall|i: int| 0 <= i < 8 ==> self.0@[i] == 0),
    {
        let mut i: usize = 0;
        while i < 8
            invariant
                i <= 8,
                forall|j: int| 0 <= j < i ==> self.0@[j] == 0,
            decreases 8 - i,
        {
            if self.0[i] != 0 {
                return false;
            }
            i = i + 1;
        }
        true
    }

    /// The 2-byte type field.
    pub fn rd_type(&self) -> (r: u16)
        ensures
            r == be16(self.0@[0], self.0@[1]),
    {
        (self.0[0] as u16) * 256 + (self.0[1] as u16)
    }
}

/// Text of a route distinguisher: "admin:assigned" for types 0-2, hex otherwise.
pub open spec fn rd_text(rd: RouteDistinguisher) -> Seq<char> {
    let b = rd.0@;
    let t = be16(b[0], b[1]);
    if t == 0 {
        dec(be16(b[2], b[3]) as nat) + seq![':'] + dec(be32(b[4], b[5], b[6], b[7]) as nat)
    } else if t == 1 {
        ipv4_text(b.subrange(2, 6)) + seq![':'] + dec(be16(b[6], b[7]) as nat)
    } else if t == 2 {
        dec(be32(b[2], b[3], b[4], b[5]) as nat) + seq![':'] + dec(be16(b[6], b[7]) as nat)
    } else {
        seq!['0', 'x'] + hex_bytes(b)
    }
}

/// Hexadecimal rendering of a byte sequence (two digits per byte).
pub open spec fn hex_bytes(b: Seq<u8>) -> Seq<char>
    decreases b.len(),
{
    if b.len() == 0 {
        Seq::empty()
    } else {
        hex_bytes(b.drop_last()) + hex2(b.last())
    }
}

/// Appends the hexadecimal rendering of `b` to `s`.
pub fn push_hex_bytes(s: &mut String, b: &[u8])
    ensures
        final(s)@ == old(s)@ + hex_bytes(b@),
{
    let mut i: usize = 0;
    while i < b.len()
        invariant
            i <= b@.len(),
            s@ == old(s)@ + hex_bytes(b@.subrange(0, i as int)),
        decreases b@.len() - i,
    {
        push_hex2(s, b[i]);
        i = i + 1;
        assert(b@.subrange(0, i as int).drop_last() =~= b@.subrange(0, i - 1));
        assert(s@ =~= old(s)@ + hex_bytes(b@.subrange(0, i as int)));
    }
    assert(b@.subrange(0, b@.len() as int) =~= b@);
}

/// Lower-case hexadecimal text of `b`, two digits per byte.
pub fn encode(b: &[u8]) -> (r: String)
    ensures
        r@ == hex_bytes(b@),
{
    let mut s = String::new();
    push_hex_bytes(&mut s, b);
    s
}

impl RouteDistinguisher {
    /// Renders the distinguisher as text.
    pub fn to_text(&self) -> (r: String)
        ensures
            r@ == rd_text(*self),
    {
        let t = self.rd_type();
        let b = &self.0;
        let mut s = String::new();
        if t == 0 {
            push_dec(&mut s, ((b[2] as u64) * 256 + b[3] as u64));
            s.push(':');
            push_dec(&mut s, read_u32(b, 4) as u64);
        } else if t == 1 {
            let a = [b[2], b[3], b[4], b[5]];
            push_ipv4(&mut s, &a);
            s.push(':');
            push_dec(&mut s, ((b[6] as u64) * 256 + b[7] as u64));
            assert(a@ =~= b@.subrange(2, 6));
        } else if t == 2 {
            push_dec(&mut s, read_u32(b, 2) as u64);
            s.push(':');
            push_dec(&mut s, ((b[6] as u64) * 256 + b[7] as u64));
        } else {
            s.push('0');
            s.push('x');
            push_hex_bytes(&mut s, b);
        }
        assert(s@ =~= rd_text(*self));
        s
    }
}

/// Decoded network prefix.
#[derive(Debug)]
pub enum Prefix {
    V4(Ipv4Net),
    V6(Ipv6Net),
    /// MPLS labeled (RFC 3107): prefix + label stack.
    Labeled { prefix: Box<Prefix>, labels: Vec<u32> },
    /// VPN (RFC 4364): route distinguisher + labeled prefix.
    Vpn { rd: RouteDistinguisher, prefix: Box<Prefix>, labels: Vec<u32> },
}

/// Mathematical model of a prefix (label stacks as sequences).
pub enum PrefixModel {
    V4 { addr: Seq<u8>, len: u8 },
    V6 { addr: Seq<u8>, len: u8 },
    Labeled { prefix: Box<PrefixModel>, labels: Seq<u32> },
    Vpn { rd: Seq<u8>, prefix: Box<PrefixModel>, labels: Seq<u32> },
}

/// The model of a prefix.
pub open spec fn prefix_model(p: Prefix) -> PrefixModel
    decreases p,
{
    match p {
        Prefix::V4(n) => PrefixModel::V4 { addr: n.addr@, len: n.prefix_len },
        Prefix::V6(n) => PrefixModel::V6 { addr: n.addr@, len: n.prefix_len },
        Prefix::Labeled { prefix, labels } => PrefixModel::Labeled {
            prefix: Box::new(prefix_model(*prefix)),
            labels: labels@,
        },
        Prefix::Vpn { rd, prefix, labels } => PrefixModel::Vpn {
            rd: rd.0@,
            prefix: Box::new(prefix_model(*prefix)),
            labels: labels@,
        },
    }
}

impl View for Prefix {
    type V = PrefixModel;

    open spec fn view(&self) -> PrefixModel {
        prefix_model(*self)
    }
}

/// Address family of a prefix model (labeled and VPN prefixes report the
/// family of the inner prefix).
pub open spec fn prefix_family(p: PrefixModel) -> Afi
    decreases p,
{
    match p {
        PrefixModel::V4 { .. } => Afi::Ipv4,
        PrefixModel::V6 { .. } => Afi::Ipv6,
        PrefixModel::Labeled { prefix, .. } => prefix_family(*prefix),
        PrefixModel::Vpn { prefix, .. } => prefix_family(*prefix),
    }
}

/// Copies a label stack.
pub fn clone_labels(v: &Vec<u32>) -> (r: Vec<u32>)
    ensures
        r@ == v@,
{
    let mut out: Vec<u32> = Vec::new();
    let mut i: usize = 0;
    while i < v.len()
        invariant
            i <= v@.len(),
            out@ == v@.subrange(0, i as int),
        decreases v@.len() - i,
    {
        out.push(v[i]);
        i = i + 1;
    }
    assert(out@ =~= v@);
    out
}

impl Clone for Prefix {
    fn clone(&self) -> (r: Prefix)
        ensures
            r@ == self@,
        decreases self,
    {
        match self {
            Prefix::V4(n) => Prefix::V4(*n),
            Prefix::V6(n) => Prefix::V6(*n),
            Prefix::Labeled { prefix, labels } => {
                let inner = (**prefix).clone();
                Prefix::Labeled { prefix: Box::new(inner), labels: clone_labels(labels) }
            },
            Prefix::Vpn { rd, prefix, labels } => {
                let inner = (**prefix).clone();
                Prefix::Vpn { rd: *rd, prefix: Box::new(inner), labels: clone_labels(labels) }
            },
        }
    }
}

impl Prefix {
    /// The address family of the prefix.
    pub fn addr_family(&self) -> (r: Afi)
        ensures
            r == prefix_family(self@),
        decreases self,
    {
        match self {
            Prefix::V4(_) => Afi::Ipv4,
            Prefix::V6(_) => Afi::Ipv6,
            Prefix::Labeled { prefix, .. } => prefix.addr_family(),
            Prefix::Vpn { prefix, .. } => prefix.addr_family(),
        }
    }
}

} // verus!

verus! {

broadcast use vstd::std_specs::hash::group_hash_axioms;

/// One AS_PATH segment.
#[derive(Clone, Debug, PartialEq, Eq)]
pub enum AsPathSegment {
    /// Type 1: unordered set.
    AsSet(Vec<u32>),
    /// Type 2: ordered sequence.
    Sequence(Vec<u32>),
    /// Type 3: confederation sequence.
    ConfedSequence(Vec<u32>),
    /// Type 4: confederation set.
    ConfedSet(Vec<u32>),
}

/// Model of an AS_PATH segment.
pub enum SegmentModel {
    AsSet(Seq<u32>),
    Sequence(Seq<u32>),
    ConfedSequence(Seq<u32>),
    ConfedSet(Seq<u32>),
}

impl View for AsPathSegment {
    type V = SegmentModel;

    open spec fn view(&self) -> SegmentModel {
        match self {
            AsPathSegment::AsSet(v) => SegmentModel::AsSet(v@),
            AsPathSegment::Sequence(v) => SegmentModel::Sequence(v@),
            AsPathSegment::ConfedSequence(v) => SegmentModel::ConfedSequence(v@),
            AsPathSegment::ConfedSet(v) => SegmentModel::ConfedSet(v@),
        }
    }
}

/// The ASNs of a segment model, whatever its kind.
pub open spec fn segment_asns(s: SegmentModel) -> Seq<u32> {
    match s {
        SegmentModel::AsSet(v) => v,
        SegmentModel::Sequence(v) => v,
        SegmentModel::ConfedSequence(v) => v,
        SegmentModel::ConfedSet(v) => v,
    }
}

impl AsPathSegment {
    /// The ASNs of the segment.
    pub fn asns(&self) -> (r: &[u32])
        ensures
            r@ == segment_asns(self@),
    {
        match self {
            AsPathSegment::AsSet(v) => v.as_slice(),
            AsPathSegment::Sequence(v) => v.as_slice(),
            AsPathSegment::ConfedSequence(v) => v.as_slice(),
            AsPathSegment::ConfedSet(v) => v.as_slice(),
        }
    }
}

/// An AS_PATH: ordered list of segments.
#[derive(Clone, Debug, PartialEq, Eq)]
pub struct AsPath(pub Vec<AsPathSegment>);

impl View for AsPath {
    type V = Seq<SegmentModel>;

    open spec fn view(&self) -> Seq<SegmentModel> {
        self.0@.map_values(|s: AsPathSegment| s@)
    }
}

/// Number of ASNs in the SEQUENCE segments.
pub open spec fn hop_count_of(p: Seq<SegmentModel>) -> nat
    decreases p.len(),
{
    if p.len() == 0 {
        0
    } else {
        hop_count_of(p.drop_last()) + match p.last() {
            SegmentModel::Sequence(v) => v.len(),
            _ => 0,
        }
    }
}

/// The last ASN of the first non-empty SEQUENCE segment.
pub open spec fn origin_asn_of(p: Seq<SegmentModel>) -> Option<u32>
    decreases p.len(),
{
    if p.len() == 0 {
        None
    } else {
        match p[0] {
            SegmentModel::Sequence(v) if v.len() > 0 => Some(v.last()),
            _ => origin_asn_of(p.drop_first()),
        }
    }
}

/// The first ASN of the first non-empty SEQUENCE segment.
pub open spec fn first_asn_of(p: Seq<SegmentModel>) -> Option<u32>
    decreases p.len(),
{
    if p.len() == 0 {
        None
    } else {
        match p[0] {
            SegmentModel::Sequence(v) if v.len() > 0 => Some(v[0]),
            _ => first_asn_of(p.drop_first()),
        }
    }
}

/// Whether some SEQUENCE segment repeats an ASN in two consecutive positions.
pub open spec fn has_prepending_of(p: Seq<SegmentModel>) -> bool {
    exists|i: int| 0 <= i < p.len() && segment_prepends(#[trigger] p[i])
}

/// Whether a sequence repeats a value in two consecutive positions.
pub open spec fn adjacent_dup(v: Seq<u32>) -> bool {
    exists|j: int| 0 <= j < v.len() - 1 && #[trigger] v[j] == v[j + 1]
}

/// Whether a segment is a SEQUENCE with a consecutive repeat.
pub open spec fn segment_prepends(s: SegmentModel) -> bool {
    match s {
        SegmentModel::Sequence(v) => adjacent_dup(v),
        _ => false,
    }
}

/// All ASNs of all segments, in order.
pub open spec fn all_asns(p: Seq<SegmentModel>) -> Seq<u32>
    decreases p.len(),
{
    if p.len() == 0 {
        Seq::empty()
    } else {
        all_asns(p.drop_last()) + segment_asns(p.last())
    }
}

impl AsPath {
    /// Whether the path has no segments.
    pub fn is_empty(&self) -> (r: bool)
        ensures
            r == (self@.len() == 0),
    {
        self.0.len() == 0
    }

    /// Total AS hop count, counting only SEQUENCE segments.
    pub fn hop_count(&self) -> (r: usize)
        requires
            hop_count_of(self@) <= usize::MAX,
        ensures
            r == hop_count_of(self@),
    {
        let mut total: usize = 0;
        let mut i: usize = 0;
        while i < self.0.len()
            invariant
                i <= self@.len(),
                hop_count_of(self@) <= usize::MAX,
                total == hop_count_of(self@.subrange(0, i as int)),
            decreases self@.len() - i,
        {
            proof {
                lemma_hop_count_prefix_mono(self@, i as int + 1);
                assert(self@.subrange(0, i + 1).drop_last() =~= self@.subrange(0, i as int));
            }
            match &self.0[i] {
                AsPathSegment::Sequence(v) => {
                    total = total + v.len();
                },
                _ => {},
            }
            i = i + 1;
        }
        assert(self@.subrange(0, self@.len() as int) =~= self@);
        total
    }

    /// Originating ASN: the right-most ASN of the first non-empty SEQUENCE.
    pub fn origin_asn(&self) -> (r: Option<u32>)
        ensures
            r == origin_asn_of(self@),
    {
        assert(self@.subrange(0, self@.len() as int) =~= self@);
        let mut i: usize = 0;
        while i < self.0.len()
            invariant
                i <= self@.len(),
                origin_asn_of(self@) == origin_asn_of(self@.subrange(i as int, self@.len() as int)),
            decreases self@.len() - i,
        {
            assert(self@[i as int] == self.0@[i as int]@);
            assert(self@.subrange(i as int, self@.len() as int).drop_first() =~= self@.subrange(
                i + 1,
                self@.len() as int,
            ));
            match &self.0[i] {
                AsPathSegment::Sequence(v) => {
                    if v.len() > 0 {
                        return Some(v[v.len() - 1]);
                    }
                },
                _ => {},
            }
            i = i + 1;
        }
        None
    }

    /// First ASN: the left-most ASN of the first non-empty SEQUENCE.
    pub fn first_asn(&self) -> (r: Option<u32>)
        ensures
            r == first_asn_of(self@),
    {
        assert(self@.subrange(0, self@.len() as int) =~= self@);
        let mut i: usize = 0;
        while i < self.0.len()
            invariant
                i <= self@.len(),
                first_asn_of(self@) == first_asn_of(self@.subrange(i as int, self@.len() as int)),
            decreases self@.len() - i,
        {
            assert(self@[i as int] == self.0@[i as int]@);
            assert(self@.subrange(i as int, self@.len() as int).drop_first() =~= self@.subrange(
                i + 1,
                self@.len() as int,
            ));
            match &self.0[i] {
                AsPathSegment::Sequence(v) => {
                    if v.len() > 0 {
                        return Some(v[0]);
                    }
                },
                _ => {},
            }
            i = i + 1;
        }
        None
    }

    /// Detects prepending: the same ASN twice in a row inside a SEQUENCE.
    pub fn has_prepending(&self) -> (r: bool)
        ensures
            r == has_prepending_of(self@),
    {
        let mut i: usize = 0;
        while i < self.0.len()
            invariant
                i <= self@.len(),
                forall|k: int| 0 <= k < i ==> !segment_prepends(#[trigger] self@[k]),
            decreases self@.len() - i,
        {
            match &self.0[i] {
                AsPathSegment::Sequence(v) => {
                    if has_adjacent_dup(v.as_slice()) {
                        assert(segment_prepends(self@[i as int]));
                        return true;
                    }
                },
                _ => {},
            }
            i = i + 1;
        }
        false
    }

    /// Detects an AS loop: some ASN occurring twice anywhere in the path.
    pub fn has_loop(&self) -> (r: bool)
        ensures
            r == !all_asns(self@).no_duplicates(),
    {
        let mut seen: std::collections::HashSet<u32> = std::collections::HashSet::new();
        let mut i: usize = 0;
        while i < self.0.len()
            invariant
                i <= self@.len(),
                all_asns(self@.subrange(0, i as int)).no_duplicates(),
                seen@ == all_asns(self@.subrange(0, i as int)).to_set(),
            decreases self@.len() - i,
        {
            let asns = self.0[i].asns();
            let ghost before = all_asns(self@.subrange(0, i as int));
            assert(self@.subrange(0, i + 1).drop_last() =~= self@.subrange(0, i as int));
            assert(all_asns(self@.subrange(0, i + 1)) == before + segment_asns(self@[i as int]));
            let mut j: usize = 0;
            while j < asns.len()
                invariant
                    i < self@.len(),
                    asns@ == segment_asns(self@[i as int]),
                    all_asns(self@.subrange(0, i + 1)) == before + asns@,
                    j <= asns@.len(),
                    (before + asns@.subrange(0, j as int)).no_duplicates(),
                    seen@ == (before + asns@.subrange(0, j as int)).to_set(),
                decreases asns@.len() - j,
            {
                let a = asns[j];
                let ghost cur = before + asns@.subrange(0, j as int);
                assert(before + asns@.subrange(0, j + 1) =~= cur.push(a));
                if !seen.insert(a) {
                    proof {
                        assert(cur.to_set().contains(a));
                        assert(cur.push(a).drop_last() =~= cur);
                        assert((before + asns@).subrange(0, cur.len() as int + 1) =~= cur.push(a));
                        lemma_dup_extends(cur.push(a), before + asns@, a);
                        assert((before + asns@).subrange(0, (before + asns@).len() as int) =~= before + asns@);
                        lemma_dup_in_prefix_extends(self@, i as int + 1, before + asns@);
                    }
                    return true;
                }
                proof {
                    assert(forall|x: u32| cur.push(a).contains(x) <==> (cur.contains(x) || x == a)) by {
                        assert forall|x: u32| cur.push(a).contains(x) implies (cur.contains(x) || x == a) by {
                            let k = choose|k: int| 0 <= k < cur.push(a).len() && cur.push(a)[k] == x;
                            if k < cur.len() {
                                assert(cur[k] == x);
                            }
                        }
                        assert forall|x: u32| cur.contains(x) implies cur.push(a).contains(x) by {
                            let k = choose|k: int| 0 <= k < cur.len() && cur[k] == x;
                            assert(cur.push(a)[k] == x);
                        }
                        assert(cur.push(a)[cur.len() as int] == a);
                    }
                    assert(seen@ =~= cur.push(a).to_set());
                    assert(cur.push(a).no_duplicates());
                }
                j = j + 1;
            }
            assert(asns@.subrange(0, asns@.len() as int) =~= asns@);
            i = i + 1;
        }
        assert(self@.subrange(0, self@.len() as int) =~= self@);
        false
    }
}

/// Whether `v` repeats a value in two consecutive positions.
pub fn has_adjacent_dup(v: &[u32]) -> (r: bool)
    ensures
        r == adjacent_dup(v@),
{
    let mut j: usize = 1;
    while j < v.len()
        invariant
            1 <= j,
            forall|t: int| 0 <= t < j - 1 && t < v@.len() - 1 ==> #[trigger] v@[t] != v@[t + 1],
        decreases v@.len() - j,
    {
        if v[j] == v[j - 1] {
            assert(v@[j - 1] == v@[j as int]);
            return true;
        }
        j = j + 1;
    }
    false
}

/// The hop count of a prefix of the path is at most the whole path's.
proof fn lemma_hop_count_prefix_mono(p: Seq<SegmentModel>, k: int)
    requires
        0 <= k <= p.len(),
    ensures
        hop_count_of(p.subrange(0, k)) <= hop_count_of(p),
    decreases p.len() - k,
{
    if k < p.len() {
        lemma_hop_count_prefix_mono(p, k + 1);
        assert(p.subrange(0, k + 1).drop_last() =~= p.subrange(0, k));
    } else {
        assert(p.subrange(0, k) =~= p);
    }
}

/// A sequence that has `cur.push(a)` as a prefix and `a` in `cur` has a duplicate.
proof fn lemma_dup_extends(cur_a: Seq<u32>, whole: Seq<u32>, a: u32)
    requires
        cur_a.len() > 0,
        cur_a.last() == a,
        cur_a.drop_last().contains(a),
        cur_a.len() <= whole.len(),
        whole.subrange(0, cur_a.len() as int) == cur_a,
    ensures
        !whole.no_duplicates(),
{
    let k = choose|k: int| 0 <= k < cur_a.drop_last().len() && cur_a.drop_last()[k] == a;
    assert(whole[k] == a);
    assert(whole[cur_a.len() - 1] == a);
}

/// A duplicate among the ASNs of the first `k` segments is a duplicate of the path.
proof fn lemma_dup_in_prefix_extends(p: Seq<SegmentModel>, k: int, prefix_asns: Seq<u32>)
    requires
        0 <= k <= p.len(),
        !prefix_asns.no_duplicates(),
        prefix_asns.len() <= all_asns(p.subrange(0, k)).len(),
        all_asns(p.subrange(0, k)).subrange(0, prefix_asns.len() as int) == prefix_asns,
    ensures
        !all_asns(p).no_duplicates(),
    decreases p.len() - k,
{
    if k < p.len() {
        assert(p.subrange(0, k + 1).drop_last() =~= p.subrange(0, k));
        let next = all_asns(p.subrange(0, k + 1));
        assert(next == all_asns(p.subrange(0, k)) + segment_asns(p[k]));
        assert(next.subrange(0, prefix_asns.len() as int) =~= prefix_asns);
        lemma_dup_in_prefix_extends(p, k + 1, prefix_asns);
    } else {
        assert(p.subrange(0, k) =~= p);
        let whole = all_asns(p);
        let (a, b) = choose|a: int, b: int|
            0 <= a < prefix_asns.len() && 0 <= b < prefix_asns.len() && a != b && prefix_asns[a]
                == prefix_asns[b];
        assert(whole[a] == prefix_asns[a]);
        assert(whole[b] == prefix_asns[b]);
    }
}

} // verus!

verus! {

/// Standard BGP community (RFC 1997): 32 bits, ASN:value.
#[derive(Clone, Copy, Debug, PartialEq, Eq, Structural, Hash)]
pub struct StandardCommunity(pub u32);

/// Name of a well-known community value, if it has one.
pub open spec fn community_name(v: u32) -> Option<Seq<char>> {
    if v == 0xFFFFFF01 { Some("NO_EXPORT"@) }
    else if v == 0xFFFFFF02 { Some("NO_ADVERTISE"@) }
    else if v == 0xFFFFFF03 { Some("NO_EXPORT_SUBCONFED"@) }
    else if v == 0xFFFF029A { Some("BLACKHOLE"@) }
    else if v == 0xFFFF0000 { Some("GRACEFUL_SHUTDOWN"@) }
    else if v == 0xFFFF0001 { Some("ACCEPT_OWN"@) }
    else { None }
}

/// Text of a community: its well-known name, else "asn:value".
pub open spec fn community_text(v: u32) -> Seq<char> {
    match community_name(v) {
        Some(n) => n,
        None => dec((v / 65536) as nat) + seq![':'] + dec((v % 65536) as nat),
    }
}

impl StandardCommunity {
    /// Builds ASN:value.
    pub fn new(asn: u16, value: u16) -> (r: StandardCommunity)
        ensures
            r.0 == asn * 65536 + value,
    {
        StandardCommunity((asn as u32) * 65536 + (value as u32))
    }

    /// The high 16 bits.
    pub fn asn(self) -> (r: u16)
        ensures
            r == self.0 / 65536,
    {
        (self.0 / 65536) as u16
    }

    /// The low 16 bits.
    pub fn value(self) -> (r: u16)
        ensures
            r == self.0 % 65536,
    {
        (self.0 % 65536) as u16
    }

    /// NO_EXPORT (0xFFFFFF01).
    pub fn no_export() -> (r: StandardCommunity)
        ensures
            r.0 == 0xFFFFFF01,
    {
        StandardCommunity(0xFFFFFF01)
    }

    /// NO_ADVERTISE (0xFFFFFF02).
    pub fn no_advertise() -> (r: StandardCommunity)
        ensures
            r.0 == 0xFFFFFF02,
    {
        StandardCommunity(0xFFFFFF02)
    }

    /// NO_EXPORT_SUBCONFED (0xFFFFFF03).
    pub fn no_export_subconfed() -> (r: StandardCommunity)
        ensures
            r.0 == 0xFFFFFF03,
    {
        StandardCommunity(0xFFFFFF03)
    }

    /// BLACKHOLE (0xFFFF029A).
    pub fn blackhole() -> (r: StandardCommunity)
        ensures
            r.0 == 0xFFFF029A,
    {
        StandardCommunity(0xFFFF029A)
    }

    /// GRACEFUL_SHUTDOWN (0xFFFF0000).
    pub fn graceful_shutdown() -> (r: StandardCommunity)
        ensures
            r.0 == 0xFFFF0000,
    {
        StandardCommunity(0xFFFF0000)
    }

    /// ACCEPT_OWN (0xFFFF0001).
    pub fn accept_own() -> (r: StandardCommunity)
        ensures
            r.0 == 0xFFFF0001,
    {
        StandardCommunity(0xFFFF0001)
    }

    /// Whether the value lies in the well-known range (0xFFFF0000 and above).
    pub fn is_well_known(self) -> (r: bool)
        ensures
            r == (self.0 >= 0xFFFF0000),
    {
        self.0 >= 0xFFFF0000
    }

    /// Well-known name of the community, if any.
    pub fn name(self) -> (r: Option<&'static str>)
        ensures
            match r {
                Some(n) => community_name(self.0) == Some(n@),
                None => community_name(self.0) is None,
            },
    {
        match self.0 {
            0xFFFFFF01 => Some("NO_EXPORT"),
            0xFFFFFF02 => Some("NO_ADVERTISE"),
            0xFFFFFF03 => Some("NO_EXPORT_SUBCONFED"),
            0xFFFF029A => Some("BLACKHOLE"),
            0xFFFF0000 => Some("GRACEFUL_SHUTDOWN"),
            0xFFFF0001 => Some("ACCEPT_OWN"),
            _ => None,
        }
    }

    /// Renders the community as text.
    pub fn to_text(&self) -> (r: String)
        ensures
            r@ == community_text(self.0),
    {
        match self.name() {
            Some(n) => String::from_str(n),
            None => {
                let mut s = String::new();
                push_dec(&mut s, self.asn() as u64);
                s.push(':');
                push_dec(&mut s, self.value() as u64);
                assert(s@ =~= community_text(self.0));
                s
            },
        }
    }
}

/// Building a community from ASN and value and splitting it again gives
/// back both halves.
pub proof fn lemma_community_roundtrip(asn: u16, value: u16)
    ensures
        ((asn * 65536 + value) / 65536) == asn,
        ((asn * 65536 + value) % 65536) == value,
{
}

/// Extended community (RFC 4360): 8 bytes.
#[derive(Clone, Copy, Debug, PartialEq, Eq, Hash)]
pub struct ExtendedCommunity {
    pub type_high: u8,
    pub type_low: u8,
    pub value: [u8; 6],
}

/// Kind tag of an extended community from its (type & 0x3F, subtype).
pub open spec fn ext_kind(type_high: u8, type_low: u8) -> Seq<char> {
    let t = type_high % 64;
    if (t == 0x00 || t == 0x01 || t == 0x02) && type_low == 0x02 {
        "route-target"@
    } else if (t == 0x00 || t == 0x01 || t == 0x02) && type_low == 0x03 {
        "route-origin-soo"@
    } else if t == 0x03 && type_low == 0x0B {
        "sr-te-color"@
    } else if t == 0x01 && type_low == 0x0C {
        "vxlan-vni"@
    } else {
        "extended-community"@
    }
}

/// Text of an extended community.
pub open spec fn ext_text(c: ExtendedCommunity) -> Seq<char> {
    let t = c.type_high % 64;
    let v = c.value@;
    if (t == 0x00 || t == 0x02) && c.type_low == 0x02 {
        "rt:"@ + dec(be16(v[0], v[1]) as nat) + seq![':'] + dec(be32(v[2], v[3], v[4], v[5]) as nat)
    } else if t == 0x01 && c.type_low == 0x02 {
        "rt:"@ + ipv4_text(v.subrange(0, 4)) + seq![':'] + dec(be16(v[4], v[5]) as nat)
    } else if (t == 0x00 || t == 0x02) && c.type_low == 0x03 {
        "soo:"@ + dec(be16(v[0], v[1]) as nat) + seq![':'] + dec(be32(v[2], v[3], v[4], v[5]) as nat)
    } else if t == 0x01 && c.type_low == 0x03 {
        "soo:"@ + ipv4_text(v.subrange(0, 4)) + seq![':'] + dec(be16(v[4], v[5]) as nat)
    } else if t == 0x03 && c.type_low == 0x0B {
        "color:"@ + dec(be32(v[2], v[3], v[4], v[5]) as nat)
    } else if t == 0x01 && c.type_low == 0x0C {
        "vni:"@ + dec(be32(0, v[3], v[4], v[5]) as nat)
    } else {
        "ext:0x"@ + hex2(c.type_high) + hex2(c.type_low) + seq![':'] + hex_bytes(v)
    }
}

impl ExtendedCommunity {
    /// Builds from the 8 wire bytes.
    pub fn from_bytes(b: &[u8; 8]) -> (r: ExtendedCommunity)
        ensures
            r.type_high == b@[0],
            r.type_low == b@[1],
            r.value@ == b@.subrange(2, 8),
    {
        let value = [b[2], b[3], b[4], b[5], b[6], b[7]];
        assert(value@ =~= b@.subrange(2, 8));
        ExtendedCommunity { type_high: b[0], type_low: b[1], value }
    }

    /// Transitive when the 0x40 bit of the type is clear.
    pub fn is_transitive(&self) -> (r: bool)
        ensures
            r == ((self.type_high / 64) % 2 == 0),
    {
        (self.type_high / 64) % 2 == 0
    }

    /// Human-readable kind tag.
    pub fn kind(&self) -> (r: &'static str)
        ensures
            r@ == ext_kind(self.type_high, self.type_low),
    {
        let t = self.type_high % 64;
        let l = self.type_low;
        if (t == 0x00 || t == 0x01 || t == 0x02) && l == 0x02 {
            "route-target"
        } else if (t == 0x00 || t == 0x01 || t == 0x02) && l == 0x03 {
            "route-origin-soo"
        } else if t == 0x03 && l == 0x0B {
            "sr-te-color"
        } else if t == 0x01 && l == 0x0C {
            "vxlan-vni"
        } else {
            "extended-community"
        }
    }

    /// Renders the community as text ("rt:...", "soo:...", "color:...", ...).
    pub fn to_text(&self) -> (r: String)
        ensures
            r@ == ext_text(*self),
    {
        let t = self.type_high % 64;
        let l = self.type_low;
        let v = &self.value;
        let mut s = String::new();
        if (t == 0x00 || t == 0x02) && l == 0x02 {
            s.append("rt:");
            push_dec(&mut s, (v[0] as u64) * 256 + v[1] as u64);
            s.push(':');
            push_dec(&mut s, read_u32(v, 2) as u64);
        } else if t == 0x01 && l == 0x02 {
            s.append("rt:");
            let a = [v[0], v[1], v[2], v[3]];
            push_ipv4(&mut s, &a);
            s.push(':');
            push_dec(&mut s, (v[4] as u64) * 256 + v[5] as u64);
            assert(a@ =~= v@.subrange(0, 4));
        } else if (t == 0x00 || t == 0x02) && l == 0x03 {
            s.append("soo:");
            push_dec(&mut s, (v[0] as u64) * 256 + v[1] as u64);
            s.push(':');
            push_dec(&mut s, read_u32(v, 2) as u64);
        } else if t == 0x01 && l == 0x03 {
            s.append("soo:");
            let a = [v[0], v[1], v[2], v[3]];
            push_ipv4(&mut s, &a);
            s.push(':');
            push_dec(&mut s, (v[4] as u64) * 256 + v[5] as u64);
            assert(a@ =~= v@.subrange(0, 4));
        } else if t == 0x03 && l == 0x0B {
            s.append("color:");
            push_dec(&mut s, read_u32(v, 2) as u64);
        } else if t == 0x01 && l == 0x0C {
            s.append("vni:");
            push_dec(&mut s, ((v[3] as u64) * 256 + v[4] as u64) * 256 + v[5] as u64);
        } else {
            s.append("ext:0x");
            push_hex2(&mut s, self.type_high);
            push_hex2(&mut s, self.type_low);
            s.push(':');
            push_hex_bytes(&mut s, v);
        }
        assert(s@ =~= ext_text(*self));
        s
    }
}

/// Large community (RFC 8092): three 32-bit values.
#[derive(Clone, Copy, Debug, PartialEq, Eq, Structural, Hash)]
pub struct LargeCommunity {
    pub global_admin: u32,
    pub local_data_1: u32,
    pub local_data_2: u32,
}

impl LargeCommunity {
    /// Renders "global:local1:local2".
    pub fn to_text(&self) -> (r: String)
        ensures
            r@ == dec(self.global_admin as nat) + seq![':'] + dec(self.local_data_1 as nat) + seq![
                ':',
            ] + dec(self.local_data_2 as nat),
    {
        let mut s = String::new();
        push_dec(&mut s, self.global_admin as u64);
        s.push(':');
        push_dec(&mut s, self.local_data_1 as u64);
        s.push(':');
        push_dec(&mut s, self.local_data_2 as u64);
        s
    }
}

/// BGP ORIGIN attribute value.
#[derive(Clone, Copy, Debug, PartialEq, Eq, Structural)]
pub enum Origin {
    Igp,
    Egp,
    Incomplete,
}

impl Origin {
    /// Decodes the ORIGIN byte; values above 2 are rejected.
    pub fn try_from_u8(v: u8) -> (r: Result<Origin, Error>)
        ensures
            v == 0 ==> r == Ok::<Origin, Error>(Origin::Igp),
            v == 1 ==> r == Ok::<Origin, Error>(Origin::Egp),
            v == 2 ==> r == Ok::<Origin, Error>(Origin::Incomplete),
            v > 2 ==> (r matches Err(Error::BgpParse(m)) && m@ == "invalid ORIGIN value "@ + dec(
                v as nat,
            )),
    {
        match v {
            0 => Ok(Origin::Igp),
            1 => Ok(Origin::Egp),
            2 => Ok(Origin::Incomplete),
            _ => {
                let mut m = String::from_str("invalid ORIGIN value ");
                push_dec(&mut m, v as u64);
                Err(Error::BgpParse(m))
            },
        }
    }

    /// "IGP", "EGP" or "INCOMPLETE".
    pub fn to_text(&self) -> (r: &'static str)
        ensures
            r@ == match *self {
                Origin::Igp => "IGP"@,
                Origin::Egp => "EGP"@,
                Origin::Incomplete => "INCOMPLETE"@,
            },
    {
        match self {
            Origin::Igp => "IGP",
            Origin::Egp => "EGP",
            Origin::Incomplete => "INCOMPLETE",
        }
    }
}

/// BGP capability advertised in an OPEN (RFC 5492).
#[derive(Clone, Debug)]
pub enum BgpCapability {
    Multiprotocol(AfiSafi),
    RouteRefresh,
    ExtendedNextHop { afi: Afi, safi: Safi, next_hop_afi: Afi },
    ExtendedMessage,
    /// RFC 9234 role: 0 provider, 1 RS, 2 RS-client, 3 customer, 4 peer.
    BgpRole(u8),
    GracefulRestart { restart_time: u16, afi_safis: Vec<(AfiSafi, u8)> },
    FourByteAsn(u32),
    /// Per family: 1 send, 2 receive, 3 both.
    AddPath(Vec<(AfiSafi, u8)>),
    EnhancedRouteRefresh,
    /// RFC 9494: per-AFI/SAFI stale-time entries, 7 bytes each
    /// (AFI 2 + SAFI 1 + flags 1 + stale time 3), kept as raw bytes.
    LongLivedGracefulRestart { entries: Vec<u8> },
    Fqdn { hostname: String, domain: String },
    Unknown { code: u8, data: Vec<u8> },
}

/// Model of a capability (lists as sequences, text as character sequences).
pub enum CapabilityModel {
    Multiprotocol(AfiSafi),
    RouteRefresh,
    ExtendedNextHop { afi: Afi, safi: Safi, next_hop_afi: Afi },
    ExtendedMessage,
    BgpRole(u8),
    GracefulRestart { restart_time: u16, afi_safis: Seq<(AfiSafi, u8)> },
    FourByteAsn(u32),
    AddPath(Seq<(AfiSafi, u8)>),
    EnhancedRouteRefresh,
    LongLivedGracefulRestart { entries: Seq<u8> },
    Fqdn { hostname: Seq<char>, domain: Seq<char> },
    Unknown { code: u8, data: Seq<u8> },
}

impl View for BgpCapability {
    type V = CapabilityModel;

    open spec fn view(&self) -> CapabilityModel {
        match self {
            BgpCapability::Multiprotocol(a) => CapabilityModel::Multiprotocol(*a),
            BgpCapability::RouteRefresh => CapabilityModel::RouteRefresh,
            BgpCapability::ExtendedNextHop { afi, safi, next_hop_afi } => CapabilityModel::ExtendedNextHop {
                afi: *afi,
                safi: *safi,
                next_hop_afi: *next_hop_afi,
            },
            BgpCapability::ExtendedMessage => CapabilityModel::ExtendedMessage,
            BgpCapability::BgpRole(r) => CapabilityModel::BgpRole(*r),
            BgpCapability::GracefulRestart { restart_time, afi_safis } => CapabilityModel::GracefulRestart {
                restart_time: *restart_time,
                afi_safis: afi_safis@,
            },
            BgpCapability::FourByteAsn(a) => CapabilityModel::FourByteAsn(*a),
            BgpCapability::AddPath(v) => CapabilityModel::AddPath(v@),
            BgpCapability::EnhancedRouteRefresh => CapabilityModel::EnhancedRouteRefresh,
            BgpCapability::LongLivedGracefulRestart { entries } =>
                CapabilityModel::LongLivedGracefulRestart { entries: entries@ },
            BgpCapability::Fqdn { hostname, domain } => CapabilityModel::Fqdn {
                hostname: hostname@,
                domain: domain@,
            },
            BgpCapability::Unknown { code, data } => CapabilityModel::Unknown {
                code: *code,
                data: data@,
            },
        }
    }
}

/// The capability code of a capability model.
pub open spec fn capability_code(c: CapabilityModel) -> u8 {
    match c {
        CapabilityModel::Multiprotocol(_) => 1,
        CapabilityModel::RouteRefresh => 2,
        CapabilityModel::ExtendedNextHop { .. } => 5,
        CapabilityModel::ExtendedMessage => 6,
        CapabilityModel::BgpRole(_) => 9,
        CapabilityModel::GracefulRestart { .. } => 64,
        CapabilityModel::FourByteAsn(_) => 65,
        CapabilityModel::AddPath(_) => 69,
        CapabilityModel::EnhancedRouteRefresh => 70,
        CapabilityModel::LongLivedGracefulRestart { .. } => 71,
        CapabilityModel::Fqdn { .. } => 73,
        CapabilityModel::Unknown { code, .. } => code,
    }
}

impl BgpCapability {
    /// The capability code.
    pub fn code(&self) -> (r: u8)
        ensures
            r == capability_code(self@),
    {
        match self {
            BgpCapability::Multiprotocol(_) => 1,
            BgpCapability::RouteRefresh => 2,
            BgpCapability::ExtendedNextHop { .. } => 5,
            BgpCapability::ExtendedMessage => 6,
            BgpCapability::BgpRole(_) => 9,
            BgpCapability::GracefulRestart { .. } => 64,
            BgpCapability::FourByteAsn(_) => 65,
            BgpCapability::AddPath(_) => 69,
            BgpCapability::EnhancedRouteRefresh => 70,
            BgpCapability::LongLivedGracefulRestart { .. } => 71,
            BgpCapability::Fqdn { .. } => 73,
            BgpCapability::Unknown { code, .. } => *code,
        }
    }
}

/// Name of a tunnel type (RFC 9012 registry).
pub open spec fn tunnel_type_text(t: u16) -> Seq<char> {
    if t == 1 { "l2tpv3-over-ip"@ }
    else if t == 2 { "gre"@ }
    else if t == 3 { "transmit-tunnel-endpoint"@ }
    else if t == 4 { "ipsec-in-tunnel-mode"@ }
    else if t == 5 { "ip-in-ip-with-ipsec"@ }
    else if t == 6 { "mpls-in-ip-with-ipsec"@ }
    else if t == 7 { "ip-in-ip"@ }
    else if t == 8 { "vxlan"@ }
    else if t == 9 { "nvgre"@ }
    else if t == 10 { "mpls"@ }
    else if t == 11 { "mpls-in-gre"@ }
    else if t == 12 { "vxlan-gpe"@ }
    else if t == 13 { "mpls-in-udp"@ }
    else if t == 14 { "ipv6-tunnel"@ }
    else if t == 15 { "sr-mpls"@ }
    else if t == 16 { "geneve"@ }
    else if t == 17 { "endpoint"@ }
    else if t == 23 { "srv6"@ }
    else { "unknown"@ }
}

/// Name of a tunnel type.
pub fn tunnel_type_name(t: u16) -> (r: &'static str)
    ensures
        r@ == tunnel_type_text(t),
{
    match t {
        1 => "l2tpv3-over-ip",
        2 => "gre",
        3 => "transmit-tunnel-endpoint",
        4 => "ipsec-in-tunnel-mode",
        5 => "ip-in-ip-with-ipsec",
        6 => "mpls-in-ip-with-ipsec",
        7 => "ip-in-ip",
        8 => "vxlan",
        9 => "nvgre",
        10 => "mpls",
        11 => "mpls-in-gre",
        12 => "vxlan-gpe",
        13 => "mpls-in-udp",
        14 => "ipv6-tunnel",
        15 => "sr-mpls",
        16 => "geneve",
        17 => "endpoint",
        23 => "srv6",
        _ => "unknown",
    }
}

} // verus!

verus! {

/// VPLS NLRI (RFC 4761, AFI 25 / SAFI 65).
#[derive(Clone, Copy, Debug)]
pub struct VplsNlri {
    pub rd: [u8; 8],
    pub ve_id: u16,
    pub ve_block_offset: u16,
    pub ve_block_size: u16,
    /// 20-bit label base.
    pub label_base: u32,
}

} // verus!

verus! {

/// SRv6 SID information (RFC 9252).
#[derive(Clone, Copy, Debug)]
pub struct Srv6SubSubTlv {
    pub sid: [u8; 16],
    pub sid_flags: u8,
    pub endpoint_behavior: u16,
}

/// SRv6 L3 Service TLV: its SID information entries.
#[derive(Clone, Debug)]
pub struct Srv6L3Service {
    pub sub_sub_tlvs: Vec<Srv6SubSubTlv>,
}

/// Model of an SRv6 SID information entry: (SID, flags, behavior).
pub open spec fn sid_info_view(t: Srv6SubSubTlv) -> (Seq<u8>, u8, u16) {
    (t.sid@, t.sid_flags, t.endpoint_behavior)
}

impl View for Srv6L3Service {
    type V = Seq<(Seq<u8>, u8, u16)>;

    open spec fn view(&self) -> Seq<(Seq<u8>, u8, u16)> {
        self.sub_sub_tlvs@.map_values(|t: Srv6SubSubTlv| sid_info_view(t))
    }
}

/// BGP Prefix-SID attribute (RFC 8669, type 40).
#[derive(Clone, Debug)]
pub struct PrefixSid {
    /// TLV type 1: label index.
    pub label_index: Option<u32>,
    /// TLV type 3: originator SRGB, (flags, [(base, range)]).
    pub originator_srgb: Option<(u16, Vec<(u32, u32)>)>,
    /// TLV type 5: SRv6 L3 service.
    pub srv6_l3_service: Option<Srv6L3Service>,
    /// Unrecognised TLVs as (type, value).
    pub raw_tlvs: Vec<(u8, Vec<u8>)>,
}

/// Model of a Prefix-SID attribute.
pub struct PrefixSidModel {
    pub label_index: Option<u32>,
    pub originator_srgb: Option<(u16, Seq<(u32, u32)>)>,
    pub srv6_l3_service: Option<Seq<(Seq<u8>, u8, u16)>>,
    pub raw_tlvs: Seq<(u8, Seq<u8>)>,
}

impl View for PrefixSid {
    type V = PrefixSidModel;

    open spec fn view(&self) -> PrefixSidModel {
        PrefixSidModel {
            label_index: self.label_index,
            originator_srgb: match self.originator_srgb {
                Some((f, v)) => Some((f, v@)),
                None => None,
            },
            srv6_l3_service: match self.srv6_l3_service {
                Some(s) => Some(s@),
                None => None,
            },
            raw_tlvs: self.raw_tlvs@.map_values(|e: (u8, Vec<u8>)| (e.0, e.1@)),
        }
    }
}

} // verus!
