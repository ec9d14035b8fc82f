//! IP addresses as plain octets.

use vstd::prelude::*;
use crate::text::{dec, hex_char, push_dec};
use crate::wire::{read_array4, read_array16};

verus! {

/// An IPv4 or IPv6 address held as its network-order octets.
#[derive(Clone, Copy, Debug, PartialEq, Eq, Hash)]
pub enum IpAddress {
    V4([u8; 4]),
    V6([u8; 16]),
}

/// Model of an address: its octets.
pub enum IpModel {
    V4(Seq<u8>),
    V6(Seq<u8>),
}

impl View for IpAddress {
    type V = IpModel;

    open spec fn view(&self) -> IpModel {
        match self {
            IpAddress::V4(a) => IpModel::V4(a@),
            IpAddress::V6(a) => IpModel::V6(a@),
        }
    }
}

/// The address model of `width` (4 or 16) octets of `s` at `i`.
pub open spec fn ip_at(s: Seq<u8>, i: int, v6: bool) -> IpModel {
    if v6 {
        IpModel::V6(s.subrange(i, i + 16))
    } else {
        IpModel::V4(s.subrange(i, i + 4))
    }
}

/// Reads an IPv4 (4 octets) or IPv6 (16 octets) address at `pos`.
pub fn read_ip(buf: &[u8], pos: usize, v6: bool) -> (r: IpAddress)
    requires
        pos + (if v6 { 16int } else { 4int }) <= buf.len(),
    ensures
        r@ == ip_at(buf@, pos as int, v6),
{
    if v6 {
        IpAddress::V6(read_array16(buf, pos))
    } else {
        IpAddress::V4(read_array4(buf, pos))
    }
}

impl IpAddress {
    /// Whether this is an IPv6 address.
    pub fn is_ipv6(&self) -> (r: bool)
        ensures
            r == (*self is V6),
    {
        match self {
            IpAddress::V4(_) => false,
            IpAddress::V6(_) => true,
        }
    }

    /// The unspecified IPv4 address 0.0.0.0.
    pub fn v4_unspecified() -> (r: IpAddress)
        ensures
            r matches IpAddress::V4(a) && a@ == seq![0u8, 0u8, 0u8, 0u8],
    {
        let r = [0u8, 0u8, 0u8, 0u8];
        assert(r@ =~= seq![0u8, 0u8, 0u8, 0u8]);
        IpAddress::V4(r)
    }
}

/// Dotted-quad rendering of four octets.
pub open spec fn ipv4_text(a: Seq<u8>) -> Seq<char> {
    dec(a[0] as nat) + seq!['.'] + dec(a[1] as nat) + seq!['.'] + dec(a[2] as nat) + seq!['.']
        + dec(a[3] as nat)
}

/// Appends the dotted-quad rendering of `a` to `s`.
pub fn push_ipv4(s: &mut String, a: &[u8; 4])
    ensures
        final(s)@ == old(s)@ + ipv4_text(a@),
{
    push_dec(s, a[0] as u64);
    s.push('.');
    push_dec(s, a[1] as u64);
    s.push('.');
    push_dec(s, a[2] as u64);
    s.push('.');
    push_dec(s, a[3] as u64);
    assert(final(s)@ =~= old(s)@ + ipv4_text(a@));
}

/// Lower-case hexadecimal rendering of a number without leading zeros.
pub open spec fn hex_nz(n: nat) -> Seq<char>
    decreases n,
{
    if n < 16 {
        seq![hex_char(n as int)]
    } else {
        hex_nz(n / 16).push(hex_char((n % 16) as int))
    }
}

/// Appends the hexadecimal digits of `n` (no leading zeros) to `s`.
pub fn push_hex_nz(s: &mut String, n: u64)
    ensures
        final(s)@ == old(s)@ + hex_nz(n as nat),
    decreases n,
{
    if n >= 16 {
        push_hex_nz(s, n / 16);
    }
    let d: u64 = n % 16;
    let c = if d < 10 { ((d as u8) + 48) as char } else { ((d as u8) + 87) as char };
    s.push(c);
    proof {
        if n >= 16 {
            assert(hex_nz(n as nat) == hex_nz((n / 16) as nat).push(hex_char((n % 16) as int)));
        } else {
            assert(hex_nz(n as nat) =~= seq![hex_char(n as int)]);
        }
    }
}

/// The i-th 16-bit group of an IPv6 address.
pub open spec fn v6_group(a: Seq<u8>, i: int) -> int {
    a[2 * i] * 256 + a[2 * i + 1]
}

/// Colon-separated hexadecimal rendering of groups `lo..hi`.
pub open spec fn v6_groups_text(a: Seq<u8>, lo: int, hi: int) -> Seq<char>
    decreases hi - lo,
{
    if hi <= lo {
        Seq::empty()
    } else if hi == lo + 1 {
        hex_nz(v6_group(a, lo) as nat)
    } else {
        v6_groups_text(a, lo, hi - 1) + seq![':'] + hex_nz(v6_group(a, hi - 1) as nat)
    }
}

/// Scan for the longest run of zero groups (the first one on ties), as
/// (start, length), given the scan state after group `i`.
pub open spec fn v6_longest_zero_run(
    a: Seq<u8>,
    i: int,
    cur_start: int,
    cur_len: int,
    best_start: int,
    best_len: int,
) -> (int, int)
    decreases 8 - i,
{
    if i >= 8 {
        (best_start, best_len)
    } else if v6_group(a, i) == 0 {
        let cs = if cur_len == 0 { i } else { cur_start };
        let cl = cur_len + 1;
        if cl > best_len {
            v6_longest_zero_run(a, i + 1, cs, cl, cs, cl)
        } else {
            v6_longest_zero_run(a, i + 1, cs, cl, best_start, best_len)
        }
    } else {
        v6_longest_zero_run(a, i + 1, 0, 0, best_start, best_len)
    }
}

/// Whether the address is an IPv4-mapped IPv6 address (::ffff:a.b.c.d).
pub open spec fn v6_is_v4_mapped(a: Seq<u8>) -> bool {
    &&& forall|i: int| 0 <= i < 10 ==> a[i] == 0
    &&& a[10] == 0xff
    &&& a[11] == 0xff
}

/// Canonical text of an IPv6 address: IPv4-mapped addresses in dotted form,
/// otherwise the longest run (at least two) of zero groups shortened to "::".
pub open spec fn ipv6_text(a: Seq<u8>) -> Seq<char> {
    if v6_is_v4_mapped(a) {
        seq![':', ':', 'f', 'f', 'f', 'f', ':'] + ipv4_text(a.subrange(12, 16))
    } else {
        let (start, len) = v6_longest_zero_run(a, 0, 0, 0, 0, 0);
        if len > 1 {
            v6_groups_text(a, 0, start) + seq![':', ':'] + v6_groups_text(a, start + len, 8)
        } else {
            v6_groups_text(a, 0, 8)
        }
    }
}

/// Appends groups `lo..hi` of `a`, colon-separated, to `s`.
fn push_v6_groups(s: &mut String, a: &[u8; 16], lo: usize, hi: usize)
    requires
        lo <= hi <= 8,
    ensures
        final(s)@ == old(s)@ + v6_groups_text(a@, lo as int, hi as int),
{
    let mut i: usize = lo;
    while i < hi
        invariant
            lo <= i <= hi <= 8,
            s@ == old(s)@ + v6_groups_text(a@, lo as int, i as int),
        decreases hi - i,
    {
        if i > lo {
            s.push(':');
        }
        let g: u32 = (a[2 * i] as u32) * 256 + (a[2 * i + 1] as u32);
        push_hex_nz(s, g as u64);
        proof {
            if i == lo {
                assert(v6_groups_text(a@, lo as int, i + 1) == hex_nz(v6_group(a@, lo as int) as nat));
                assert(v6_groups_text(a@, lo as int, lo as int) =~= Seq::<char>::empty());
            }
        }
        i = i + 1;
        assert(s@ =~= old(s)@ + v6_groups_text(a@, lo as int, i as int));
    }
}

/// Appends the canonical text of an IPv6 address to `s`.
pub fn push_ipv6(s: &mut String, a: &[u8; 16])
    ensures
        final(s)@ == old(s)@ + ipv6_text(a@),
{
    let mut mapped = a[10] == 0xff && a[11] == 0xff;
    let mut k: usize = 0;
    while k < 10
        invariant
            k <= 10,
            mapped == (a@[10] == 0xff && a@[11] == 0xff && forall|j: int| 0 <= j < k ==> a@[j] == 0),
        decreases 10 - k,
    {
        if a[k] != 0 {
            mapped = false;
        }
        k = k + 1;
    }
    if mapped {
        s.push(':');
        s.push(':');
        s.push('f');
        s.push('f');
        s.push('f');
        s.push('f');
        s.push(':');
        let v4 = [a[12], a[13], a[14], a[15]];
        push_ipv4(s, &v4);
        assert(v4@ =~= a@.subrange(12, 16));
        assert(final(s)@ =~= old(s)@ + ipv6_text(a@));
        return;
    }
    let mut i: usize = 0;
    let mut cur_start: usize = 0;
    let mut cur_len: usize = 0;
    let mut best_start: usize = 0;
    let mut best_len: usize = 0;
    while i < 8
        invariant
            i <= 8,
            cur_start <= i,
            cur_len <= i,
            best_start + best_len <= 8,
            best_len <= i,
            v6_longest_zero_run(a@, 0, 0, 0, 0, 0) == v6_longest_zero_run(
                a@,
                i as int,
                cur_start as int,
                cur_len as int,
                best_start as int,
                best_len as int,
            ),
            cur_len > 0 ==> cur_start + cur_len == i,
            best_len > 0 ==> best_start + best_len <= i,
        decreases 8 - i,
    {
        let g: u32 = (a[2 * i] as u32) * 256 + (a[2 * i + 1] as u32);
        if g == 0 {
            if cur_len == 0 {
                cur_start = i;
            }
            cur_len = cur_len + 1;
            if cur_len > best_len {
                best_start = cur_start;
                best_len = cur_len;
            }
        } else {
            cur_start = 0;
            cur_len = 0;
        }
        i = i + 1;
    }
    if best_len > 1 {
        push_v6_groups(s, a, 0, best_start);
        s.push(':');
        s.push(':');
        push_v6_groups(s, a, best_start + best_len, 8);
    } else {
        push_v6_groups(s, a, 0, 8);
    }
    assert(final(s)@ =~= old(s)@ + ipv6_text(a@));
}

/// Canonical text of an address.
pub open spec fn ip_text(a: IpAddress) -> Seq<char> {
    match a {
        IpAddress::V4(b) => ipv4_text(b@),
        IpAddress::V6(b) => ipv6_text(b@),
    }
}

impl IpAddress {
    /// Renders the address as text (dotted quad or canonical IPv6).
    pub fn to_text(&self) -> (r: String)
        ensures
            r@ == ip_text(*self),
    {
        let mut s = String::new();
        match self {
            IpAddress::V4(b) => push_ipv4(&mut s, b),
            IpAddress::V6(b) => push_ipv6(&mut s, b),
        }
        assert(s@ =~= ip_text(*self));
        s
    }
}

} // verus!
