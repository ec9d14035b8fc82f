//! Flow Specification NLRI (RFC 5575 for IPv4, RFC 8955 for IPv6).

use vstd::prelude::*;
use vstd::string::StringExecFns;
use crate::error::{Error, ErrorModel, eof};
use crate::net::{ipv4_text, ipv6_text, push_ipv4, push_ipv6, hex_nz, push_hex_nz};
use crate::text::{dec, push_dec};
use crate::wire::{be16_at, be32_at, be64_at, read_u16, read_u32, read_u64, copy_range};

verus! {

/// Numeric operator (RFC 8955 section 4.2.1.1).
#[derive(Clone, Copy, Debug, PartialEq, Eq, Structural)]
pub struct NumericOp {
    pub lt: bool,
    pub gt: bool,
    pub eq: bool,
    pub and_bit: bool,
    pub value: u64,
}

/// Bitmask operator (RFC 8955 section 4.2.1.2).
#[derive(Clone, Copy, Debug, PartialEq, Eq, Structural)]
pub struct BitmaskOp {
    pub not: bool,
    pub match_bit: bool,
    pub and_bit: bool,
    pub value: u64,
}

/// One Flowspec component.
#[derive(Clone, Debug)]
pub enum FlowspecComponent {
    DestPrefix { prefix: String, prefix_len: u8 },
    SrcPrefix { prefix: String, prefix_len: u8 },
    IpProtocol { ops: Vec<NumericOp> },
    Port { ops: Vec<NumericOp> },
    DstPort { ops: Vec<NumericOp> },
    SrcPort { ops: Vec<NumericOp> },
    IcmpType { ops: Vec<NumericOp> },
    IcmpCode { ops: Vec<NumericOp> },
    TcpFlags { ops: Vec<BitmaskOp> },
    PktLen { ops: Vec<NumericOp> },
    Dscp { ops: Vec<NumericOp> },
    Fragment { ops: Vec<BitmaskOp> },
    Unknown { component_type: u8, data: Vec<u8> },
}

/// Mathematical model of a [`FlowspecComponent`].
pub enum ComponentModel {
    DestPrefix { prefix: Seq<char>, prefix_len: u8 },
    SrcPrefix { prefix: Seq<char>, prefix_len: u8 },
    IpProtocol { ops: Seq<NumericOp> },
    Port { ops: Seq<NumericOp> },
    DstPort { ops: Seq<NumericOp> },
    SrcPort { ops: Seq<NumericOp> },
    IcmpType { ops: Seq<NumericOp> },
    IcmpCode { ops: Seq<NumericOp> },
    TcpFlags { ops: Seq<BitmaskOp> },
    PktLen { ops: Seq<NumericOp> },
    Dscp { ops: Seq<NumericOp> },
    Fragment { ops: Seq<BitmaskOp> },
    Unknown { component_type: u8, data: Seq<u8> },
}

impl View for FlowspecComponent {
    type V = ComponentModel;

    open spec fn view(&self) -> ComponentModel {
        match self {
            FlowspecComponent::DestPrefix { prefix, prefix_len } => ComponentModel::DestPrefix {
                prefix: prefix@,
                prefix_len: *prefix_len,
            },
            FlowspecComponent::SrcPrefix { prefix, prefix_len } => ComponentModel::SrcPrefix {
                prefix: prefix@,
                prefix_len: *prefix_len,
            },
            FlowspecComponent::IpProtocol { ops } => ComponentModel::IpProtocol { ops: ops@ },
            FlowspecComponent::Port { ops } => ComponentModel::Port { ops: ops@ },
            FlowspecComponent::DstPort { ops } => ComponentModel::DstPort { ops: ops@ },
            FlowspecComponent::SrcPort { ops } => ComponentModel::SrcPort { ops: ops@ },
            FlowspecComponent::IcmpType { ops } => ComponentModel::IcmpType { ops: ops@ },
            FlowspecComponent::IcmpCode { ops } => ComponentModel::IcmpCode { ops: ops@ },
            FlowspecComponent::TcpFlags { ops } => ComponentModel::TcpFlags { ops: ops@ },
            FlowspecComponent::PktLen { ops } => ComponentModel::PktLen { ops: ops@ },
            FlowspecComponent::Dscp { ops } => ComponentModel::Dscp { ops: ops@ },
            FlowspecComponent::Fragment { ops } => ComponentModel::Fragment { ops: ops@ },
            FlowspecComponent::Unknown { component_type, data } => ComponentModel::Unknown {
                component_type: *component_type,
                data: data@,
            },
        }
    }
}

/// One Flowspec NLRI: its components and a summary such as
/// "dst=192.0.2.0/24 proto=6 dstport=80".
#[derive(Clone, Debug)]
pub struct FlowspecNlri {
    pub components: Vec<FlowspecComponent>,
    pub summary: String,
}

pub struct FlowspecNlriModel {
    pub components: Seq<ComponentModel>,
    pub summary: Seq<char>,
}

impl View for FlowspecNlri {
    type V = FlowspecNlriModel;

    open spec fn view(&self) -> FlowspecNlriModel {
        FlowspecNlriModel {
            components: self.components@.map_values(|c: FlowspecComponent| c@),
            summary: self.summary@,
        }
    }
}

// ─── Operators ───────────────────────────────────────────────────────────────

/// Bit `2^k` of an operator byte.
pub open spec fn op_bit(op: u8, k: nat) -> bool {
    (op as nat / vstd::arithmetic::power2::pow2(k)) % 2 == 1
}

/// Value length selected by bits 4-5 of an operator byte: 1, 2, 4 or 8.
pub open spec fn op_value_len(op: u8) -> nat {
    let c = (op / 16) % 4;
    if c == 0 {
        1
    } else if c == 1 {
        2
    } else if c == 2 {
        4
    } else {
        8
    }
}

/// Big-endian value of `n` (1, 2, 4 or 8) bytes at `i`.
pub open spec fn be_value(s: Seq<u8>, i: int, n: nat) -> u64 {
    if n == 1 {
        s[i] as u64
    } else if n == 2 {
        be16_at(s, i) as u64
    } else if n == 4 {
        be32_at(s, i) as u64
    } else {
        be64_at(s, i) as u64
    }
}

/// Numeric operators of `s` from offset `p`, appended to `acc`: each is an
/// operator byte and a value; the list ends after an operator with the
/// end-of-list bit, at the end of `s`, or (without that operator) where a
/// value would run past the end. Also gives the offset reached.
pub open spec fn numeric_ops_from(s: Seq<u8>, p: nat, acc: Seq<NumericOp>) -> (Seq<NumericOp>, nat)
    decreases s.len() - p,
{
    if p >= s.len() {
        (acc, p)
    } else {
        let op = s[p as int];
        let vlen = op_value_len(op);
        if p + 1 + vlen > s.len() {
            (acc, p + 1)
        } else {
            let o = NumericOp {
                lt: op_bit(op, 2),
                gt: op_bit(op, 1),
                eq: op_bit(op, 0),
                and_bit: op_bit(op, 6),
                value: be_value(s, (p + 1) as int, vlen),
            };
            if op_bit(op, 7) {
                (acc.push(o), p + 1 + vlen)
            } else {
                numeric_ops_from(s, p + 1 + vlen, acc.push(o))
            }
        }
    }
}

/// Bitmask operators, laid out as numeric ones; values of 4 or 8 bytes are
/// skipped and read as 0.
pub open spec fn bitmask_ops_from(s: Seq<u8>, p: nat, acc: Seq<BitmaskOp>) -> (Seq<BitmaskOp>, nat)
    decreases s.len() - p,
{
    if p >= s.len() {
        (acc, p)
    } else {
        let op = s[p as int];
        let vlen = op_value_len(op);
        if p + 1 + vlen > s.len() {
            (acc, p + 1)
        } else {
            let o = BitmaskOp {
                not: op_bit(op, 1),
                match_bit: op_bit(op, 0),
                and_bit: op_bit(op, 6),
                value: if vlen <= 2 {
                    be_value(s, (p + 1) as int, vlen)
                } else {
                    0
                },
            };
            if op_bit(op, 7) {
                (acc.push(o), p + 1 + vlen)
            } else {
                bitmask_ops_from(s, p + 1 + vlen, acc.push(o))
            }
        }
    }
}

fn bit(op: u8, k: u8) -> (r: bool)
    requires
        k < 8,
    ensures
        r == op_bit(op, k as nat),
{
    let d: u8 = if k == 0 {
        1
    } else if k == 1 {
        2
    } else if k == 2 {
        4
    } else if k == 3 {
        8
    } else if k == 4 {
        16
    } else if k == 5 {
        32
    } else if k == 6 {
        64
    } else {
        128
    };
    proof {
        vstd::arithmetic::power2::lemma2_to64();
    }
    (op / d) % 2 == 1
}

fn value_len(op: u8) -> (r: usize)
    ensures
        r == op_value_len(op),
{
    let c = (op / 16) % 4;
    if c == 0 {
        1
    } else if c == 1 {
        2
    } else if c == 2 {
        4
    } else {
        8
    }
}

fn read_value(buf: &[u8], pos: usize, n: usize) -> (r: u64)
    requires
        n == 1 || n == 2 || n == 4 || n == 8,
        pos + n <= buf.len(),
    ensures
        r == be_value(buf@, pos as int, n as nat),
{
    if n == 1 {
        buf[pos] as u64
    } else if n == 2 {
        read_u16(buf, pos) as u64
    } else if n == 4 {
        read_u32(buf, pos) as u64
    } else {
        read_u64(buf, pos)
    }
}

/// Decodes numeric operators; returns them with the number of bytes used.
fn parse_numeric_ops(buf: &[u8]) -> (r: (Vec<NumericOp>, usize))
    ensures
        (r.0@, r.1 as nat) == numeric_ops_from(buf@, 0, Seq::empty()),
        r.1 <= buf.len(),
{
    let mut ops: Vec<NumericOp> = Vec::new();
    let mut pos: usize = 0;
    while pos < buf.len()
        invariant_except_break
            pos <= buf.len(),
            numeric_ops_from(buf@, 0, Seq::empty()) == numeric_ops_from(buf@, pos as nat, ops@),
        ensures
            (ops@, pos as nat) == numeric_ops_from(buf@, 0, Seq::empty()),
            pos <= buf.len(),
        decreases buf.len() - pos,
    {
        let op = buf[pos];
        let vlen = value_len(op);
        if vlen > buf.len() - pos - 1 {
            pos = pos + 1;
            break;
        }
        let value = read_value(buf, pos + 1, vlen);
        let o = NumericOp { lt: bit(op, 2), gt: bit(op, 1), eq: bit(op, 0), and_bit: bit(op, 6), value };
        ops.push(o);
        pos = pos + 1 + vlen;
        if bit(op, 7) {
            break;
        }
    }
    (ops, pos)
}

/// Decodes bitmask operators; returns them with the number of bytes used.
fn parse_bitmask_ops(buf: &[u8]) -> (r: (Vec<BitmaskOp>, usize))
    ensures
        (r.0@, r.1 as nat) == bitmask_ops_from(buf@, 0, Seq::empty()),
        r.1 <= buf.len(),
{
    let mut ops: Vec<BitmaskOp> = Vec::new();
    let mut pos: usize = 0;
    while pos < buf.len()
        invariant_except_break
            pos <= buf.len(),
            bitmask_ops_from(buf@, 0, Seq::empty()) == bitmask_ops_from(buf@, pos as nat, ops@),
        ensures
            (ops@, pos as nat) == bitmask_ops_from(buf@, 0, Seq::empty()),
            pos <= buf.len(),
        decreases buf.len() - pos,
    {
        let op = buf[pos];
        let vlen = value_len(op);
        if vlen > buf.len() - pos - 1 {
            pos = pos + 1;
            break;
        }
        let value = if vlen <= 2 {
            read_value(buf, pos + 1, vlen)
        } else {
            0
        };
        let o = BitmaskOp { not: bit(op, 1), match_bit: bit(op, 0), and_bit: bit(op, 6), value };
        ops.push(o);
        pos = pos + 1 + vlen;
        if bit(op, 7) {
            break;
        }
    }
    (ops, pos)
}

// ─── Components ──────────────────────────────────────────────────────────────

/// Values of numeric operators in decimal, comma-separated.
pub open spec fn values_text(ops: Seq<NumericOp>) -> Seq<char>
    decreases ops.len(),
{
    if ops.len() == 0 {
        Seq::empty()
    } else if ops.len() == 1 {
        dec(ops[0].value as nat)
    } else {
        values_text(ops.drop_last()) + seq![','] + dec(ops.last().value as nat)
    }
}

/// Summary label of a numeric component type.
pub open spec fn numeric_label(t: u8) -> Seq<char> {
    if t == 3 {
        "proto"@
    } else if t == 4 {
        "port"@
    } else if t == 5 {
        "dstport"@
    } else if t == 6 {
        "srcport"@
    } else if t == 7 {
        "icmptype"@
    } else if t == 8 {
        "icmpcode"@
    } else if t == 10 {
        "pktlen"@
    } else {
        "dscp"@
    }
}

pub open spec fn numeric_component(t: u8, ops: Seq<NumericOp>) -> ComponentModel {
    if t == 3 {
        ComponentModel::IpProtocol { ops }
    } else if t == 4 {
        ComponentModel::Port { ops }
    } else if t == 5 {
        ComponentModel::DstPort { ops }
    } else if t == 6 {
        ComponentModel::SrcPort { ops }
    } else if t == 7 {
        ComponentModel::IcmpType { ops }
    } else if t == 8 {
        ComponentModel::IcmpCode { ops }
    } else if t == 10 {
        ComponentModel::PktLen { ops }
    } else {
        ComponentModel::Dscp { ops }
    }
}

/// An address of `w` bytes whose first `n` bytes come from `s` at `i`, the
/// rest zero.
pub open spec fn padded(s: Seq<u8>, i: int, n: int, w: nat) -> Seq<u8> {
    Seq::new(w, |k: int| if k < n { s[i + k] } else { 0u8 })
}

/// Component of type `t` decoded from `s` (the bytes after the type byte):
/// the component, its summary text and the bytes it used. None where the
/// decoder would panic: an IPv6 prefix of more than 128 bits.
pub open spec fn spec_component(t: u8, s: Seq<u8>, ipv6: bool) -> Option<
    Result<(ComponentModel, Seq<char>, nat), ErrorModel>,
> {
    if t == 1 || t == 2 {
        if s.len() == 0 {
            Some(Err(eof(1, 0)))
        } else {
            let pl = s[0];
            let octets = (pl + 7) / 8;
            if s.len() < 1 + octets {
                Some(Err(eof(1 + octets, s.len() as int)))
            } else if ipv6 && octets > 16 {
                None
            } else {
                let prefix = if ipv6 {
                    ipv6_text(padded(s, 1, octets, 16))
                } else {
                    ipv4_text(padded(s, 1, if octets < 4 { octets } else { 4 }, 4))
                };
                let label = if t == 1 {
                    "dst"@
                } else {
                    "src"@
                };
                let summary = label + seq!['='] + prefix + seq!['/'] + dec(pl as nat);
                let comp = if t == 1 {
                    ComponentModel::DestPrefix { prefix, prefix_len: pl }
                } else {
                    ComponentModel::SrcPrefix { prefix, prefix_len: pl }
                };
                Some(Ok((comp, summary, (1 + octets) as nat)))
            }
        }
    } else if (3 <= t <= 8) || t == 10 || t == 11 {
        let (ops, used) = numeric_ops_from(s, 0, Seq::empty());
        Some(Ok((numeric_component(t, ops), numeric_label(t) + seq!['='] + values_text(ops), used)))
    } else if t == 9 || t == 12 {
        let (ops, used) = bitmask_ops_from(s, 0, Seq::empty());
        let label = if t == 9 {
            "tcpflags"@
        } else {
            "fragment"@
        };
        let first = if ops.len() > 0 {
            ops[0].value
        } else {
            0
        };
        let comp = if t == 9 {
            ComponentModel::TcpFlags { ops }
        } else {
            ComponentModel::Fragment { ops }
        };
        Some(Ok((comp, label + "=0x"@ + hex_nz(first as nat), used)))
    } else {
        Some(
            Ok(
                (
                    ComponentModel::Unknown { component_type: t, data: s },
                    "unknown-type-"@ + dec(t as nat),
                    s.len(),
                ),
            ),
        )
    }
}

fn numeric_label_str(t: u8) -> (r: &'static str)
    ensures
        r@ == numeric_label(t),
{
    if t == 3 {
        "proto"
    } else if t == 4 {
        "port"
    } else if t == 5 {
        "dstport"
    } else if t == 6 {
        "srcport"
    } else if t == 7 {
        "icmptype"
    } else if t == 8 {
        "icmpcode"
    } else if t == 10 {
        "pktlen"
    } else {
        "dscp"
    }
}

fn numeric_comp(t: u8, ops: Vec<NumericOp>) -> (r: FlowspecComponent)
    ensures
        r@ == numeric_component(t, ops@),
{
    if t == 3 {
        FlowspecComponent::IpProtocol { ops }
    } else if t == 4 {
        FlowspecComponent::Port { ops }
    } else if t == 5 {
        FlowspecComponent::DstPort { ops }
    } else if t == 6 {
        FlowspecComponent::SrcPort { ops }
    } else if t == 7 {
        FlowspecComponent::IcmpType { ops }
    } else if t == 8 {
        FlowspecComponent::IcmpCode { ops }
    } else if t == 10 {
        FlowspecComponent::PktLen { ops }
    } else {
        FlowspecComponent::Dscp { ops }
    }
}

fn pad_at(buf: &[u8], i: usize, n: usize, k: usize) -> (r: u8)
    requires
        i + n <= buf.len(),
    ensures
        r == (if k < n { buf@[i + k] } else { 0u8 }),
{
    if k < n {
        buf[i + k]
    } else {
        0
    }
}

fn append_values(s: &mut String, ops: &Vec<NumericOp>)
    ensures
        final(s)@ == old(s)@ + values_text(ops@),
{
    let mut i: usize = 0;
    assert(ops@.subrange(0, 0) =~= Seq::<NumericOp>::empty());
    while i < ops.len()
        invariant
            i <= ops.len(),
            s@ == old(s)@ + values_text(ops@.subrange(0, i as int)),
        decreases ops.len() - i,
    {
        let ghost before = s@;
        if i > 0 {
            s.push(',');
        }
        push_dec(s, ops[i].value);
        proof {
            let a = ops@.subrange(0, i as int);
            let b = ops@.subrange(0, i + 1);
            assert(b.drop_last() =~= a);
            if i == 0 {
                assert(values_text(b) == dec(ops@[0].value as nat));
                assert(s@ =~= old(s)@ + values_text(b));
            } else {
                assert(s@ =~= old(s)@ + values_text(b));
            }
        }
        i = i + 1;
    }
    assert(ops@.subrange(0, ops@.len() as int) =~= ops@);
}

/// Decodes one component of type `t` from `buf`; gives the component, its
/// summary text and the number of bytes used.
pub fn parse_flowspec_component(t: u8, buf: &[u8], ipv6: bool) -> (r: Result<
    (FlowspecComponent, String, usize),
    Error,
>)
    requires
        spec_component(t, buf@, ipv6) is Some,
    ensures
        match r {
            Ok((c, s, n)) => spec_component(t, buf@, ipv6) == Some(
                Ok::<(ComponentModel, Seq<char>, nat), ErrorModel>((c@, s@, n as nat)),
            ),
            Err(e) => spec_component(t, buf@, ipv6) == Some(
                Err::<(ComponentModel, Seq<char>, nat), ErrorModel>(e@),
            ),
        },
        r matches Ok((_, _, n)) ==> n <= buf.len(),
{
    if t == 1 || t == 2 {
        if buf.len() == 0 {
            return Err(Error::UnexpectedEof { needed: 1, have: 0 });
        }
        let pl = buf[0];
        let octets: usize = (pl as usize + 7) / 8;
        if buf.len() < 1 + octets {
            return Err(Error::UnexpectedEof { needed: 1 + octets, have: buf.len() });
        }
        let mut prefix = String::new();
        if ipv6 {
            let a: [u8; 16] = [
                pad_at(buf, 1, octets, 0), pad_at(buf, 1, octets, 1), pad_at(buf, 1, octets, 2),
                pad_at(buf, 1, octets, 3), pad_at(buf, 1, octets, 4), pad_at(buf, 1, octets, 5),
                pad_at(buf, 1, octets, 6), pad_at(buf, 1, octets, 7), pad_at(buf, 1, octets, 8),
                pad_at(buf, 1, octets, 9), pad_at(buf, 1, octets, 10), pad_at(buf, 1, octets, 11),
                pad_at(buf, 1, octets, 12), pad_at(buf, 1, octets, 13), pad_at(buf, 1, octets, 14),
                pad_at(buf, 1, octets, 15),
            ];
            assert(a@ =~= padded(buf@, 1, octets as int, 16));
            push_ipv6(&mut prefix, &a);
        } else {
            let n: usize = if octets < 4 {
                octets
            } else {
                4
            };
            let a: [u8; 4] = [
                pad_at(buf, 1, n, 0),
                pad_at(buf, 1, n, 1),
                pad_at(buf, 1, n, 2),
                pad_at(buf, 1, n, 3),
            ];
            assert(a@ =~= padded(buf@, 1, n as int, 4));
            push_ipv4(&mut prefix, &a);
        }
        let mut summary = String::new();
        if t == 1 {
            summary.append("dst");
        } else {
            summary.append("src");
        }
        summary.push('=');
        summary.append(prefix.as_str());
        summary.push('/');
        push_dec(&mut summary, pl as u64);
        proof {
            let label = if t == 1 { "dst"@ } else { "src"@ };
            assert(summary@ =~= label + seq!['='] + prefix@ + seq!['/'] + dec(pl as nat));
        }
        let comp = if t == 1 {
            FlowspecComponent::DestPrefix { prefix, prefix_len: pl }
        } else {
            FlowspecComponent::SrcPrefix { prefix, prefix_len: pl }
        };
        assert(spec_component(t, buf@, ipv6) == Some(
            Ok::<(ComponentModel, Seq<char>, nat), ErrorModel>((comp@, summary@, (1 + octets) as nat)),
        ));
        Ok((comp, summary, 1 + octets))
    } else if (3 <= t && t <= 8) || t == 10 || t == 11 {
        let (ops, used) = parse_numeric_ops(buf);
        let mut summary = String::new();
        let label = numeric_label_str(t);
        summary.append(label);
        summary.push('=');
        append_values(&mut summary, &ops);
        assert(summary@ =~= numeric_label(t) + seq!['='] + values_text(ops@));
        let comp = numeric_comp(t, ops);
        assert(spec_component(t, buf@, ipv6) == Some(
            Ok::<(ComponentModel, Seq<char>, nat), ErrorModel>((comp@, summary@, used as nat)),
        ));
        Ok((comp, summary, used))
    } else if t == 9 || t == 12 {
        let (ops, used) = parse_bitmask_ops(buf);
        let first: u64 = if ops.len() > 0 {
            ops[0].value
        } else {
            0
        };
        let mut summary = String::new();
        if t == 9 {
            summary.append("tcpflags");
        } else {
            summary.append("fragment");
        }
        summary.append("=0x");
        push_hex_nz(&mut summary, first);
        proof {
            let label = if t == 9 { "tcpflags"@ } else { "fragment"@ };
            assert(summary@ =~= label + "=0x"@ + hex_nz(first as nat));
        }
        let comp = if t == 9 {
            FlowspecComponent::TcpFlags { ops }
        } else {
            FlowspecComponent::Fragment { ops }
        };
        Ok((comp, summary, used))
    } else {
        let mut summary = String::new();
        summary.append("unknown-type-");
        push_dec(&mut summary, t as u64);
        assert(summary@ =~= "unknown-type-"@ + dec(t as nat));
        let data = copy_range(buf, 0, buf.len());
        assert(data@ =~= buf@);
        Ok((FlowspecComponent::Unknown { component_type: t, data }, summary, buf.len()))
    }
}

// ─── NLRI ────────────────────────────────────────────────────────────────────

/// Texts joined with single spaces.
pub open spec fn join_space(p: Seq<Seq<char>>) -> Seq<char>
    decreases p.len(),
{
    if p.len() == 0 {
        Seq::empty()
    } else if p.len() == 1 {
        p[0]
    } else {
        join_space(p.drop_last()) + seq![' '] + p.last()
    }
}

/// Components (and their summaries) of an NLRI body `s`, appended to
/// `comps` and `sums`: each is a type byte and the component's bytes. None
/// where a component would make the decoder panic.
#[verifier::opaque]
pub open spec fn spec_body_from(
    s: Seq<u8>,
    ipv6: bool,
    comps: Seq<ComponentModel>,
    sums: Seq<Seq<char>>,
) -> Option<Result<(Seq<ComponentModel>, Seq<Seq<char>>), ErrorModel>>
    decreases s.len(),
{
    if s.len() == 0 {
        Some(Ok((comps, sums)))
    } else {
        match spec_component(s[0], s.skip(1), ipv6) {
            None => None,
            Some(Err(e)) => Some(Err(e)),
            Some(Ok((c, sm, n))) => if 1 + n <= s.len() {
                spec_body_from(s.skip((1 + n) as int), ipv6, comps.push(c), sums.push(sm))
            } else {
                Some(Ok((comps, sums)))
            },
        }
    }
}

/// One Flowspec NLRI decoded from its body `s`.
pub open spec fn spec_flowspec_nlri(s: Seq<u8>, ipv6: bool) -> Option<Result<FlowspecNlriModel, ErrorModel>> {
    match spec_body_from(s, ipv6, Seq::empty(), Seq::empty()) {
        None => None,
        Some(Err(e)) => Some(Err(e)),
        Some(Ok((cs, ss))) => Some(Ok(FlowspecNlriModel { components: cs, summary: join_space(ss) })),
    }
}

pub open spec fn comps_view(v: Seq<FlowspecComponent>) -> Seq<ComponentModel> {
    v.map_values(|c: FlowspecComponent| c@)
}

pub open spec fn strings_view(v: Seq<String>) -> Seq<Seq<char>> {
    v.map_values(|c: String| c@)
}

proof fn lemma_body_unfold(s: Seq<u8>, ipv6: bool, comps: Seq<ComponentModel>, sums: Seq<Seq<char>>)
    requires
        s.len() > 0,
    ensures
        spec_body_from(s, ipv6, comps, sums) == match spec_component(s[0], s.skip(1), ipv6) {
            None => None,
            Some(Err(e)) => Some(Err(e)),
            Some(Ok((c, sm, n))) => if 1 + n <= s.len() {
                spec_body_from(s.skip((1 + n) as int), ipv6, comps.push(c), sums.push(sm))
            } else {
                Some(Ok((comps, sums)))
            },
        },
{
    reveal(spec_body_from);
}

/// Decodes the body of one Flowspec NLRI.
#[verifier::rlimit(30)]
fn parse_flowspec_nlri(buf: &[u8], ipv6: bool) -> (r: Result<FlowspecNlri, Error>)
    requires
        spec_flowspec_nlri(buf@, ipv6) is Some,
    ensures
        match r {
            Ok(n) => spec_flowspec_nlri(buf@, ipv6) == Some(Ok::<FlowspecNlriModel, ErrorModel>(n@)),
            Err(e) => spec_flowspec_nlri(buf@, ipv6) == Some(Err::<FlowspecNlriModel, ErrorModel>(e@)),
        },
{
    let mut components: Vec<FlowspecComponent> = Vec::new();
    let mut parts: Vec<String> = Vec::new();
    let mut summary = String::new();
    let mut pos: usize = 0;
    proof {
        assert(buf@.skip(0) =~= buf@);
        assert(comps_view(components@) =~= Seq::<ComponentModel>::empty());
        assert(strings_view(parts@) =~= Seq::<Seq<char>>::empty());
    }
    while pos < buf.len()
        invariant
            pos <= buf.len(),
            spec_body_from(buf@, ipv6, Seq::empty(), Seq::empty()) == spec_body_from(
                buf@.skip(pos as int),
                ipv6,
                comps_view(components@),
                strings_view(parts@),
            ),
            spec_body_from(buf@, ipv6, Seq::empty(), Seq::empty()) is Some,
            summary@ == join_space(strings_view(parts@)),
        decreases buf.len() - pos,
    {
        let ghost rest = buf@.skip(pos as int);
        let t = buf[pos];
        let tail = copy_range(buf, pos + 1, buf.len() - pos - 1);
        proof {
            assert(tail@ =~= rest.skip(1));
            assert(rest[0] == t);
            lemma_body_unfold(rest, ipv6, comps_view(components@), strings_view(parts@));
        }
        match parse_flowspec_component(t, tail.as_slice(), ipv6) {
            Err(e) => {
                return Err(e);
            },
            Ok((c, sm, n)) => {
                let ghost cv = comps_view(components@);
                let ghost pv = strings_view(parts@);
                let ghost c_v = c@;
                let ghost sm_v = sm@;
                if parts.len() > 0 {
                    summary.push(' ');
                }
                summary.append(sm.as_str());
                components.push(c);
                parts.push(sm);
                proof {
                    assert(comps_view(components@) =~= cv.push(c_v));
                    assert(strings_view(parts@) =~= pv.push(sm_v));
                    assert(pv.push(sm_v).drop_last() =~= pv);
                    if pv.len() == 0 {
                        assert(summary@ =~= sm_v);
                    } else {
                        assert(summary@ =~= join_space(pv) + seq![' '] + sm_v);
                    }
                    assert(rest.skip(1 + n as int) =~= buf@.skip(pos + 1 + n));
                }
                pos = pos + 1 + n;
            },
        }
    }
    proof {
        reveal(spec_body_from);
        assert(buf@.skip(pos as int).len() == 0);
    }
    Ok(FlowspecNlri { components, summary })
}

/// NLRIs of `s` appended to `acc`: each has a length of one byte (below
/// 0xF0) or of 12 bits in two bytes, then its body; decoding stops at a
/// length that runs past the end.
#[verifier::opaque]
pub open spec fn spec_decode_flowspec_from(
    s: Seq<u8>,
    ipv6: bool,
    acc: Seq<FlowspecNlriModel>,
) -> Option<Result<Seq<FlowspecNlriModel>, ErrorModel>>
    decreases s.len(),
{
    if s.len() == 0 {
        Some(Ok(acc))
    } else if s[0] >= 0xF0 && s.len() < 2 {
        Some(Ok(acc))
    } else {
        let hs: int = if s[0] >= 0xF0 {
            2
        } else {
            1
        };
        let len: int = if s[0] >= 0xF0 {
            (s[0] % 16) * 256 + s[1]
        } else {
            s[0] as int
        };
        if s.len() < hs + len {
            Some(Ok(acc))
        } else {
            match spec_flowspec_nlri(s.subrange(hs, hs + len), ipv6) {
                None => None,
                Some(Err(e)) => Some(Err(e)),
                Some(Ok(n)) => spec_decode_flowspec_from(s.skip(hs + len), ipv6, acc.push(n)),
            }
        }
    }
}

/// Flowspec NLRIs of `s`; None where the decoder would panic.
pub open spec fn spec_decode_flowspec(s: Seq<u8>, ipv6: bool) -> Option<
    Result<Seq<FlowspecNlriModel>, ErrorModel>,
> {
    spec_decode_flowspec_from(s, ipv6, Seq::empty())
}

pub open spec fn nlris_view(v: Seq<FlowspecNlri>) -> Seq<FlowspecNlriModel> {
    v.map_values(|n: FlowspecNlri| n@)
}

proof fn lemma_decode_step(s: Seq<u8>, ipv6: bool, acc: Seq<FlowspecNlriModel>, hs: int, len: int)
    requires
        s.len() > 0,
        s[0] < 0xF0 ==> hs == 1 && len == s[0],
        s[0] >= 0xF0 ==> s.len() >= 2 && hs == 2 && len == (s[0] % 16) * 256 + s[1],
        hs + len <= s.len(),
    ensures
        spec_decode_flowspec_from(s, ipv6, acc) == match spec_flowspec_nlri(
            s.subrange(hs, hs + len),
            ipv6,
        ) {
            None => None,
            Some(Err(e)) => Some(Err(e)),
            Some(Ok(n)) => spec_decode_flowspec_from(s.skip(hs + len), ipv6, acc.push(n)),
        },
{
    reveal(spec_decode_flowspec_from);
}

proof fn lemma_decode_stop(s: Seq<u8>, ipv6: bool, acc: Seq<FlowspecNlriModel>)
    requires
        s.len() == 0 || (s[0] >= 0xF0 && s.len() < 2) || (s[0] < 0xF0 && s.len() < 1 + s[0]) || (
        s[0] >= 0xF0 && s.len() >= 2 && s.len() < 2 + (s[0] % 16) * 256 + s[1]),
    ensures
        spec_decode_flowspec_from(s, ipv6, acc) == Some(Ok::<Seq<FlowspecNlriModel>, ErrorModel>(acc)),
{
    reveal(spec_decode_flowspec_from);
}

/// Decodes the length-prefixed Flowspec NLRIs of `buf`.
#[verifier::rlimit(30)]
pub fn decode_flowspec_nlri(buf: &[u8], afi_is_ipv6: bool) -> (r: Result<Vec<FlowspecNlri>, Error>)
    requires
        spec_decode_flowspec(buf@, afi_is_ipv6) is Some,
    ensures
        match r {
            Ok(v) => spec_decode_flowspec(buf@, afi_is_ipv6) == Some(
                Ok::<Seq<FlowspecNlriModel>, ErrorModel>(nlris_view(v@)),
            ),
            Err(e) => spec_decode_flowspec(buf@, afi_is_ipv6) == Some(
                Err::<Seq<FlowspecNlriModel>, ErrorModel>(e@),
            ),
        },
{
    let mut result: Vec<FlowspecNlri> = Vec::new();
    let mut pos: usize = 0;
    proof {
        assert(buf@.skip(0) =~= buf@);
        assert(nlris_view(result@) =~= Seq::<FlowspecNlriModel>::empty());
    }
    loop
        invariant_except_break
            pos <= buf.len(),
            spec_decode_flowspec(buf@, afi_is_ipv6) == spec_decode_flowspec_from(
                buf@.skip(pos as int),
                afi_is_ipv6,
                nlris_view(result@),
            ),
            spec_decode_flowspec(buf@, afi_is_ipv6) is Some,
        ensures
            spec_decode_flowspec(buf@, afi_is_ipv6) == Some(
                Ok::<Seq<FlowspecNlriModel>, ErrorModel>(nlris_view(result@)),
            ),
        decreases buf.len() - pos,
    {
        let ghost rest = buf@.skip(pos as int);
        if pos >= buf.len() {
            proof {
                lemma_decode_stop(rest, afi_is_ipv6, nlris_view(result@));
            }
            break;
        }
        let b0 = buf[pos];
        let hs: usize;
        let length: usize;
        if b0 < 0xF0 {
            hs = 1;
            length = b0 as usize;
        } else if buf.len() - pos >= 2 {
            hs = 2;
            length = ((b0 % 16) as usize) * 256 + buf[pos + 1] as usize;
        } else {
            proof {
                lemma_decode_stop(rest, afi_is_ipv6, nlris_view(result@));
            }
            break;
        }
        if buf.len() - pos < hs + length {
            proof {
                lemma_decode_stop(rest, afi_is_ipv6, nlris_view(result@));
            }
            break;
        }
        let body = copy_range(buf, pos + hs, length);
        proof {
            assert(body@ =~= rest.subrange(hs as int, hs + length));
            lemma_decode_step(rest, afi_is_ipv6, nlris_view(result@), hs as int, length as int);
        }
        match parse_flowspec_nlri(body.as_slice(), afi_is_ipv6) {
            Err(e) => {
                return Err(e);
            },
            Ok(n) => {
                let ghost before = nlris_view(result@);
                let ghost n_v = n@;
                result.push(n);
                proof {
                    assert(nlris_view(result@) =~= before.push(n_v));
                    assert(rest.skip(hs + length) =~= buf@.skip(pos + hs + length));
                }
                pos = pos + hs + length;
            },
        }
    }
    Ok(result)
}

} // verus!
