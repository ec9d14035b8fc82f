//! Big-endian field readers over byte slices.

use vstd::prelude::*;

verus! {

/// Big-endian value of two bytes.
pub open spec fn be16(b0: u8, b1: u8) -> int {
    b0 * 256 + b1
}

/// Big-endian value of three bytes.
pub open spec fn be24(b0: u8, b1: u8, b2: u8) -> int {
    (b0 * 256 + b1) * 256 + b2
}

/// Big-endian value of four bytes.
pub open spec fn be32(b0: u8, b1: u8, b2: u8, b3: u8) -> int {
    ((b0 * 256 + b1) * 256 + b2) * 256 + b3
}

/// Big-endian value of the two bytes of `s` at `i`.
pub open spec fn be16_at(s: Seq<u8>, i: int) -> int {
    be16(s[i], s[i + 1])
}

/// Big-endian value of the three bytes of `s` at `i`.
pub open spec fn be24_at(s: Seq<u8>, i: int) -> int {
    be24(s[i], s[i + 1], s[i + 2])
}

/// Big-endian value of the four bytes of `s` at `i`.
pub open spec fn be32_at(s: Seq<u8>, i: int) -> int {
    be32(s[i], s[i + 1], s[i + 2], s[i + 3])
}

/// Big-endian value of the eight bytes of `s` at `i`.
pub open spec fn be64_at(s: Seq<u8>, i: int) -> int {
    be32_at(s, i) * 0x1_0000_0000 + be32_at(s, i + 4)
}

/// Reads a big-endian `u16` at `pos`.
pub fn read_u16(buf: &[u8], pos: usize) -> (r: u16)
    requires
        pos + 2 <= buf.len(),
    ensures
        r == be16_at(buf@, pos as int),
{
    (buf[pos] as u16) * 256 + (buf[pos + 1] as u16)
}

/// Reads a big-endian 24-bit value at `pos`.
pub fn read_u24(buf: &[u8], pos: usize) -> (r: u32)
    requires
        pos + 3 <= buf.len(),
    ensures
        r == be24_at(buf@, pos as int),
        r < 0x100_0000,
{
    ((buf[pos] as u32) * 256 + (buf[pos + 1] as u32)) * 256 + (buf[pos + 2] as u32)
}

/// Reads a big-endian `u32` at `pos`.
pub fn read_u32(buf: &[u8], pos: usize) -> (r: u32)
    requires
        pos + 4 <= buf.len(),
    ensures
        r == be32_at(buf@, pos as int),
{
    let hi = read_u24(buf, pos);
    hi * 256 + (buf[pos + 3] as u32)
}

/// Reads a big-endian `u64` at `pos`.
pub fn read_u64(buf: &[u8], pos: usize) -> (r: u64)
    requires
        pos + 8 <= buf.len(),
    ensures
        r == be64_at(buf@, pos as int),
{
    let hi = read_u32(buf, pos) as u64;
    let lo = read_u32(buf, pos + 4) as u64;
    hi * 0x1_0000_0000 + lo
}

/// Copies `len` bytes of `buf` starting at `pos` into a new vector.
pub fn copy_range(buf: &[u8], pos: usize, len: usize) -> (r: Vec<u8>)
    requires
        pos + len <= buf.len(),
    ensures
        r@ == buf@.subrange(pos as int, pos + len),
{
    let mut out: Vec<u8> = Vec::with_capacity(len);
    let mut i: usize = 0;
    while i < len
        invariant
            i <= len,
            pos + len <= buf.len(),
            out@ == buf@.subrange(pos as int, pos + i),
        decreases len - i,
    {
        out.push(buf[pos + i]);
        i = i + 1;
    }
    out
}

/// Copies 4 bytes at `pos` into an array.
pub fn read_array4(buf: &[u8], pos: usize) -> (r: [u8; 4])
    requires
        pos + 4 <= buf.len(),
    ensures
        r@ == buf@.subrange(pos as int, pos + 4),
{
    let r = [buf[pos], buf[pos + 1], buf[pos + 2], buf[pos + 3]];
    assert(r@ =~= buf@.subrange(pos as int, pos + 4));
    r
}

/// Copies 8 bytes at `pos` into an array.
pub fn read_array8(buf: &[u8], pos: usize) -> (r: [u8; 8])
    requires
        pos + 8 <= buf.len(),
    ensures
        r@ == buf@.subrange(pos as int, pos + 8),
{
    let r = [
        buf[pos], buf[pos + 1], buf[pos + 2], buf[pos + 3],
        buf[pos + 4], buf[pos + 5], buf[pos + 6], buf[pos + 7],
    ];
    assert(r@ =~= buf@.subrange(pos as int, pos + 8));
    r
}

/// Copies 16 bytes at `pos` into an array.
pub fn read_array16(buf: &[u8], pos: usize) -> (r: [u8; 16])
    requires
        pos + 16 <= buf.len(),
    ensures
        r@ == buf@.subrange(pos as int, pos + 16),
{
    let r = [
        buf[pos], buf[pos + 1], buf[pos + 2], buf[pos + 3],
        buf[pos + 4], buf[pos + 5], buf[pos + 6], buf[pos + 7],
        buf[pos + 8], buf[pos + 9], buf[pos + 10], buf[pos + 11],
        buf[pos + 12], buf[pos + 13], buf[pos + 14], buf[pos + 15],
    ];
    assert(r@ =~= buf@.subrange(pos as int, pos + 16));
    r
}

} // verus!

verus! {

/// A type/length/value item located in a buffer.
#[derive(Clone, Copy, Debug)]
pub struct TlvRef {
    /// Type code.
    pub t: u16,
    /// Offset of the value.
    pub off: usize,
    /// Length of the value.
    pub len: usize,
}

/// Big-endian value of a `w`-byte (1 or 2) field at the start of `s`.
pub open spec fn field_at(s: Seq<u8>, w: nat) -> int {
    if w == 1 { s[0] as int } else { be16_at(s, 0) }
}

/// TLV items in `s` with a `tw`-byte type and a `lw`-byte length (each 1 or
/// 2): items are read until fewer than `tw + lw` bytes remain or an item's
/// value would run past the end.
pub open spec fn spec_tlvs(s: Seq<u8>, tw: nat, lw: nat) -> Seq<(u16, Seq<u8>)>
    decreases s.len(),
{
    if s.len() < tw + lw || tw + lw == 0 {
        Seq::empty()
    } else {
        let t = field_at(s, tw) as u16;
        let len = field_at(s.skip(tw as int), lw);
        let rest = s.skip((tw + lw) as int);
        if rest.len() < len {
            Seq::empty()
        } else {
            seq![(t, rest.subrange(0, len))] + spec_tlvs(rest.skip(len), tw, lw)
        }
    }
}

/// Whether `r` locates exactly the items `items` within `buf`.
pub open spec fn tlv_refs_match(buf: Seq<u8>, r: Seq<TlvRef>, items: Seq<(u16, Seq<u8>)>) -> bool {
    &&& r.len() == items.len()
    &&& forall|i: int|
        0 <= i < r.len() ==> {
            &&& (#[trigger] r[i]).t == items[i].0
            &&& r[i].off + r[i].len <= buf.len()
            &&& buf.subrange(r[i].off as int, r[i].off + r[i].len) == items[i].1
        }
}

/// Splits `buf[start..end]` into TLV items (see `spec_tlvs`).
#[verifier::rlimit(60)]
pub fn split_tlvs(buf: &[u8], start: usize, end: usize, tw: usize, lw: usize) -> (r: Vec<TlvRef>)
    requires
        start <= end <= buf.len(),
        tw == 1 || tw == 2,
        lw == 1 || lw == 2,
    ensures
        tlv_refs_match(buf@, r@, spec_tlvs(buf@.subrange(start as int, end as int), tw as nat, lw as nat)),
        forall|i: int| 0 <= i < r@.len() ==> start <= (#[trigger] r@[i]).off && r@[i].off + r@[i].len <= end,
{
    let mut out: Vec<TlvRef> = Vec::new();
    let mut pos: usize = start;
    let ghost done: Seq<(u16, Seq<u8>)> = Seq::empty();
    while end - pos >= tw + lw
        invariant
            start <= pos <= end <= buf.len(),
            tw == 1 || tw == 2,
            lw == 1 || lw == 2,
            spec_tlvs(buf@.subrange(start as int, end as int), tw as nat, lw as nat) == done
                + spec_tlvs(buf@.subrange(pos as int, end as int), tw as nat, lw as nat),
            tlv_refs_match(buf@, out@, done),
            forall|i: int| 0 <= i < out@.len() ==> start <= (#[trigger] out@[i]).off && out@[i].off + out@[i].len <= end,
        decreases end - pos,
    {
        let ghost s = buf@.subrange(pos as int, end as int);
        let t: u16 = if tw == 1 { buf[pos] as u16 } else { read_u16(buf, pos) };
        let len: usize = if lw == 1 { buf[pos + tw] as usize } else { read_u16(buf, pos + tw) as usize };
        assert(t == field_at(s, tw as nat) as u16);
        assert(len == field_at(s.skip(tw as int), lw as nat)) by {
            assert(s.skip(tw as int)[0] == buf@[pos + tw]);
            if lw == 2 {
                assert(s.skip(tw as int)[1] == buf@[pos + tw + 1]);
            }
        }
        assert(s.skip((tw + lw) as int) =~= buf@.subrange(pos + tw + lw, end as int));
        let vstart = pos + tw + lw;
        if end - vstart < len {
            assert(spec_tlvs(s, tw as nat, lw as nat) =~= Seq::<(u16, Seq<u8>)>::empty());
            assert(done + Seq::<(u16, Seq<u8>)>::empty() =~= done);
            return out;
        }
        let item = TlvRef { t, off: vstart, len };
        let ghost old_out = out@;
        out.push(item);
        pos = vstart + len;
        proof {
            let it = (t, s.skip((tw + lw) as int).subrange(0, len as int));
            assert(it.1 =~= buf@.subrange(vstart as int, vstart + len));
            assert(s.skip((tw + lw) as int).skip(len as int) =~= buf@.subrange(pos as int, end as int));
            let old_done = done;
            done = done.push(it);
            assert(old_done + (seq![it] + spec_tlvs(buf@.subrange(pos as int, end as int), tw as nat, lw as nat))
                =~= done + spec_tlvs(buf@.subrange(pos as int, end as int), tw as nat, lw as nat));
            assert forall|i: int| 0 <= i < out@.len() implies {
                &&& (#[trigger] out@[i]).t == done[i].0
                &&& out@[i].off + out@[i].len <= buf@.len()
                &&& buf@.subrange(out@[i].off as int, out@[i].off + out@[i].len) == done[i].1
            } by {
                if i < old_done.len() {
                    assert(out@[i] == old_out[i]);
                }
            }
        }
    }
    assert(spec_tlvs(buf@.subrange(pos as int, end as int), tw as nat, lw as nat) =~= Seq::<(u16, Seq<u8>)>::empty());
    assert(done + Seq::<(u16, Seq<u8>)>::empty() =~= done);
    out
}


/// The two big-endian bytes of `v`.
pub open spec fn u16_be(v: u16) -> Seq<u8> {
    seq![(v / 256) as u8, (v % 256) as u8]
}

/// The four big-endian bytes of `v`.
pub open spec fn u32_be(v: u32) -> Seq<u8> {
    seq![(v / 0x100_0000) as u8, ((v / 0x1_0000) % 256) as u8, ((v / 256) % 256) as u8, (v % 256) as u8]
}

/// Appends the big-endian bytes of `v`.
pub fn put_u16(out: &mut Vec<u8>, v: u16)
    ensures
        final(out)@ == old(out)@ + u16_be(v),
{
    out.push((v / 256) as u8);
    out.push((v % 256) as u8);
    assert(final(out)@ =~= old(out)@ + u16_be(v));
}

/// Appends the big-endian bytes of `v`.
pub fn put_u32(out: &mut Vec<u8>, v: u32)
    ensures
        final(out)@ == old(out)@ + u32_be(v),
{
    out.push((v / 0x100_0000) as u8);
    out.push(((v / 0x1_0000) % 256) as u8);
    out.push(((v / 256) % 256) as u8);
    out.push((v % 256) as u8);
    assert(final(out)@ =~= old(out)@ + u32_be(v));
}

/// Appends the first `n` bytes of `s`.
pub fn put_prefix_of(out: &mut Vec<u8>, s: &[u8], n: usize)
    requires
        n <= s.len(),
    ensures
        final(out)@ == old(out)@ + s@.subrange(0, n as int),
{
    let mut i: usize = 0;
    while i < n
        invariant
            i <= n <= s.len(),
            out@ == old(out)@ + s@.subrange(0, i as int),
        decreases n - i,
    {
        out.push(s[i]);
        i = i + 1;
        assert(out@ =~= old(out)@ + s@.subrange(0, i as int));
    }
}

/// Appends all of `s`.
pub fn put_slice(out: &mut Vec<u8>, s: &[u8])
    ensures
        final(out)@ == old(out)@ + s@,
{
    put_prefix_of(out, s, s.len());
    assert(s@.subrange(0, s@.len() as int) =~= s@);
}

/// Reading back two written bytes gives the value.
pub proof fn lemma_u16_be(v: u16)
    ensures
        be16_at(u16_be(v), 0) == v,
{
}

/// Reading back four written bytes gives the value.
pub proof fn lemma_u32_be(v: u32)
    ensures
        be32_at(u32_be(v), 0) == v,
{
    let a = v / 0x100_0000;
    let b = (v / 0x1_0000) % 256;
    let c = (v / 256) % 256;
    let d = v % 256;
    assert(((a * 256 + b) * 256 + c) * 256 + d == v) by (nonlinear_arith)
        requires
            a == v / 0x100_0000,
            b == (v / 0x1_0000) % 256,
            c == (v / 256) % 256,
            d == v % 256,
    ;
}

} // verus!
