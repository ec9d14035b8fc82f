//! BGP UPDATE messages (RFC 4271 section 4.3, Add-Path per RFC 7911).

use vstd::prelude::*;
use crate::error::{Error, ErrorModel, eof};
use crate::wire::{be16_at, read_u16, copy_range};
use crate::bgp::types::{Afi, Prefix, PrefixModel};
use crate::bgp::nlri::{decode_nlri_with_path_id, spec_nlri_path_id, pairs_view, prefixes_view};
use crate::bgp::open::{marker_ok, check_marker};
use crate::bgp::path_attrs::{PathAttributes, AttrsModel, parse_path_attributes, spec_path_attributes};

verus! {

/// A parsed UPDATE message. The path-id vectors run parallel to the prefix
/// vectors (an id is present when Add-Path is in use).
#[derive(Debug)]
pub struct BgpUpdate {
    pub withdrawn: Vec<Prefix>,
    pub withdrawn_path_ids: Vec<Option<u32>>,
    pub attributes: PathAttributes,
    pub announced: Vec<Prefix>,
    pub announced_path_ids: Vec<Option<u32>>,
}

pub struct UpdateModel {
    pub withdrawn: Seq<PrefixModel>,
    pub withdrawn_path_ids: Seq<Option<u32>>,
    pub attributes: AttrsModel,
    pub announced: Seq<PrefixModel>,
    pub announced_path_ids: Seq<Option<u32>>,
}

impl View for BgpUpdate {
    type V = UpdateModel;

    open spec fn view(&self) -> UpdateModel {
        UpdateModel {
            withdrawn: prefixes_view(self.withdrawn@),
            withdrawn_path_ids: self.withdrawn_path_ids@,
            attributes: self.attributes@,
            announced: prefixes_view(self.announced@),
            announced_path_ids: self.announced_path_ids@,
        }
    }
}

pub open spec fn firsts(p: Seq<(PrefixModel, Option<u32>)>) -> Seq<PrefixModel> {
    p.map_values(|e: (PrefixModel, Option<u32>)| e.0)
}

pub open spec fn seconds(p: Seq<(PrefixModel, Option<u32>)>) -> Seq<Option<u32>> {
    p.map_values(|e: (PrefixModel, Option<u32>)| e.1)
}

/// An UPDATE starting at its common header: marker(16), length(2), type(1)
/// = 2, withdrawn length(2) and IPv4 withdrawn NLRI, attributes length(2) and
/// attributes, then announced IPv4 NLRI to the end (with path ids when
/// `add_path`). None where a decoder would panic.
pub open spec fn spec_update(s: Seq<u8>, add_path: bool) -> Option<Result<UpdateModel, ErrorModel>> {
    if !marker_ok(s) {
        Some(Err(ErrorModel::InvalidBgpMarker))
    } else if s[18] != 2 {
        Some(Err(ErrorModel::InvalidBgpMessageType(s[18])))
    } else {
        let b = s.skip(19);
        if b.len() < 2 {
            Some(Err(eof(2, b.len() as int)))
        } else {
            let wl = be16_at(b, 0);
            let r1 = b.skip(2);
            if r1.len() < wl {
                Some(Err(eof(wl, r1.len() as int)))
            } else {
                match spec_nlri_path_id(r1.subrange(0, wl), Afi::Ipv4, add_path) {
                    None => None,
                    Some(Err(e)) => Some(Err(e)),
                    Some(Ok(wd)) => {
                        let r2 = r1.skip(wl);
                        if r2.len() < 2 {
                            Some(Err(eof(2, r2.len() as int)))
                        } else {
                            let al = be16_at(r2, 0);
                            let r3 = r2.skip(2);
                            if r3.len() < al {
                                Some(Err(eof(al, r3.len() as int)))
                            } else {
                                match spec_path_attributes(r3.subrange(0, al)) {
                                    None => None,
                                    Some(Err(e)) => Some(Err(e)),
                                    Some(Ok(attrs)) => match spec_nlri_path_id(
                                        r3.skip(al),
                                        Afi::Ipv4,
                                        add_path,
                                    ) {
                                        None => None,
                                        Some(Err(e)) => Some(Err(e)),
                                        Some(Ok(an)) => Some(
                                            Ok(
                                                UpdateModel {
                                                    withdrawn: firsts(wd),
                                                    withdrawn_path_ids: seconds(wd),
                                                    attributes: attrs,
                                                    announced: firsts(an),
                                                    announced_path_ids: seconds(an),
                                                },
                                            ),
                                        ),
                                    },
                                }
                            }
                        }
                    },
                }
            }
        }
    }
}

/// Splits prefix / path-id pairs into two parallel vectors.
fn unzip_pairs(v: Vec<(Prefix, Option<u32>)>) -> (r: (Vec<Prefix>, Vec<Option<u32>>))
    ensures
        prefixes_view(r.0@) == firsts(pairs_view(v@)),
        r.1@ == seconds(pairs_view(v@)),
{
    let ghost pv = pairs_view(v@);
    let ghost total = v@.len();
    let mut ps: Vec<Prefix> = Vec::new();
    let mut ids: Vec<Option<u32>> = Vec::new();
    let mut v = v;
    while v.len() > 0
        invariant
            v@.len() <= total,
            total == pv.len(),
            pairs_view(v@) == pv.subrange(total - v@.len(), total as int),
            prefixes_view(ps@) == firsts(pv.subrange(0, total - v@.len())),
            ids@ == seconds(pv.subrange(0, total - v@.len())),
        decreases v.len(),
    {
        let ghost before = v@;
        let ghost k = total - before.len();
        let e = v.remove(0);
        proof {
            assert(pairs_view(before)[0] == (e.0@, e.1));
            assert(pv[k] == (e.0@, e.1));
            assert(forall|j: int| 0 <= j < v@.len() ==> v@[j] == before[j + 1]);
            assert(forall|j: int| 0 <= j < before.len() ==> pairs_view(before)[j] == pv[k + j]);
            assert forall|j: int| 0 <= j < v@.len() implies pairs_view(v@)[j] == pv.subrange(
                k + 1,
                total as int,
            )[j] by {
                assert(v@[j] == before[j + 1]);
                assert(pairs_view(before)[j + 1] == pv[k + j + 1]);
            }
            assert(pairs_view(v@) =~= pv.subrange(k + 1, total as int));
        }
        let ghost pb = prefixes_view(ps@);
        let (p, id) = e;
        ps.push(p);
        ids.push(id);
        proof {
            assert(prefixes_view(ps@) =~= pb.push(p@));
            assert(firsts(pv.subrange(0, k + 1)) =~= firsts(pv.subrange(0, k)).push(pv[k].0));
            assert(seconds(pv.subrange(0, k + 1)) =~= seconds(pv.subrange(0, k)).push(pv[k].1));
        }
    }
    assert(pv.subrange(0, total as int) =~= pv);
    (ps, ids)
}

/// Decodes a BGP UPDATE starting at its 19-byte common header;
/// `add_path_ipv4` is set when Add-Path was negotiated for IPv4 unicast.
#[verifier::rlimit(40)]
pub fn parse_bgp_update(buf: &[u8], add_path_ipv4: bool) -> (r: Result<BgpUpdate, Error>)
    requires
        buf.len() >= 16,
        buf.len() >= 19 || !marker_ok(buf@),
        buf.len() <= isize::MAX,
        spec_update(buf@, add_path_ipv4) is Some,
    ensures
        match r {
            Ok(u) => spec_update(buf@, add_path_ipv4) == Some(Ok::<UpdateModel, ErrorModel>(u@)),
            Err(e) => spec_update(buf@, add_path_ipv4) == Some(Err::<UpdateModel, ErrorModel>(e@)),
        },
{
    if !check_marker(buf) {
        return Err(Error::InvalidBgpMarker);
    }
    let msg_type = buf[18];
    if msg_type != 2 {
        return Err(Error::InvalidBgpMessageType(msg_type));
    }
    let ghost b = buf@.skip(19);
    let n: usize = buf.len();
    if n - 19 < 2 {
        return Err(Error::UnexpectedEof { needed: 2, have: n - 19 });
    }
    let wl = read_u16(buf, 19) as usize;
    assert(be16_at(b, 0) == be16_at(buf@, 19));
    if n - 21 < wl {
        return Err(Error::UnexpectedEof { needed: wl, have: n - 21 });
    }
    let wbytes = copy_range(buf, 21, wl);
    assert(wbytes@ =~= b.skip(2).subrange(0, wl as int));
    let wd = match decode_nlri_with_path_id(wbytes.as_slice(), Afi::Ipv4, add_path_ipv4) {
        Ok(v) => v,
        Err(e) => {
            return Err(e);
        },
    };
    let (withdrawn, withdrawn_path_ids) = unzip_pairs(wd);
    let p2: usize = 21 + wl;
    let ghost r2 = b.skip(2).skip(wl as int);
    assert(r2 =~= buf@.skip(p2 as int));
    if n - p2 < 2 {
        return Err(Error::UnexpectedEof { needed: 2, have: n - p2 });
    }
    let al = read_u16(buf, p2) as usize;
    assert(be16_at(r2, 0) == be16_at(buf@, p2 as int));
    if n - p2 - 2 < al {
        return Err(Error::UnexpectedEof { needed: al, have: n - p2 - 2 });
    }
    let abytes = copy_range(buf, p2 + 2, al);
    assert(abytes@ =~= r2.skip(2).subrange(0, al as int));
    let attributes = match parse_path_attributes(abytes.as_slice()) {
        Ok(a) => a,
        Err(e) => {
            return Err(e);
        },
    };
    let p3: usize = p2 + 2 + al;
    let nbytes = copy_range(buf, p3, n - p3);
    assert(nbytes@ =~= r2.skip(2).skip(al as int));
    let an = match decode_nlri_with_path_id(nbytes.as_slice(), Afi::Ipv4, add_path_ipv4) {
        Ok(v) => v,
        Err(e) => {
            return Err(e);
        },
    };
    let (announced, announced_path_ids) = unzip_pairs(an);
    Ok(BgpUpdate { withdrawn, withdrawn_path_ids, attributes, announced, announced_path_ids })
}

/// The path id paired with the `i`-th prefix: the `i`-th id when there is
/// one, else none.
pub open spec fn id_at(ids: Seq<Option<u32>>, i: int) -> Option<u32> {
    if i < ids.len() {
        ids[i]
    } else {
        None
    }
}

pub fn tagged_prefixes<'a>(ps: &'a Vec<Prefix>, ids: &Vec<Option<u32>>, extra: Option<&'a Vec<Prefix>>) -> (r: Vec<
    (&'a Prefix, Option<u32>),
>)
    ensures
        r@.len() == ps@.len() + match extra {
            Some(m) => m@.len(),
            None => 0,
        },
        forall|i: int| 0 <= i < ps@.len() ==> #[trigger] r@[i] == (&ps@[i], id_at(ids@, i)),
        forall|j: int|
            ps@.len() <= j < r@.len() ==> #[trigger] r@[j] == (&extra->0@[j - ps@.len()], None::<u32>),
{
    let mut out: Vec<(&'a Prefix, Option<u32>)> = Vec::new();
    let mut i: usize = 0;
    while i < ps.len()
        invariant
            i <= ps@.len(),
            out@.len() == i,
            forall|k: int| 0 <= k < i ==> #[trigger] out@[k] == (&ps@[k], id_at(ids@, k)),
        decreases ps@.len() - i,
    {
        let id: Option<u32> = if i < ids.len() {
            ids[i]
        } else {
            None
        };
        out.push((&ps[i], id));
        i = i + 1;
    }
    match extra {
        None => {},
        Some(m) => {
            let mut j: usize = 0;
            while j < m.len()
                invariant
                    j <= m@.len(),
                    out@.len() == ps@.len() + j,
                    forall|k: int| 0 <= k < ps@.len() ==> #[trigger] out@[k] == (&ps@[k], id_at(ids@, k)),
                    forall|k: int|
                        ps@.len() <= k < out@.len() ==> #[trigger] out@[k] == (&m@[k - ps@.len()], None::<u32>),
                decreases m@.len() - j,
            {
                out.push((&m[j], None));
                j = j + 1;
            }
        },
    }
    out
}

fn joined_prefixes<'a>(ps: &'a Vec<Prefix>, extra: Option<&'a Vec<Prefix>>) -> (r: Vec<&'a Prefix>)
    ensures
        r@.len() == ps@.len() + match extra {
            Some(m) => m@.len(),
            None => 0,
        },
        forall|i: int| 0 <= i < ps@.len() ==> #[trigger] r@[i] == &ps@[i],
        forall|j: int| ps@.len() <= j < r@.len() ==> #[trigger] r@[j] == &extra->0@[j - ps@.len()],
{
    let mut out: Vec<&'a Prefix> = Vec::new();
    let mut i: usize = 0;
    while i < ps.len()
        invariant
            i <= ps@.len(),
            out@.len() == i,
            forall|k: int| 0 <= k < i ==> #[trigger] out@[k] == &ps@[k],
        decreases ps@.len() - i,
    {
        out.push(&ps[i]);
        i = i + 1;
    }
    match extra {
        None => {},
        Some(m) => {
            let mut j: usize = 0;
            while j < m.len()
                invariant
                    j <= m@.len(),
                    out@.len() == ps@.len() + j,
                    forall|k: int| 0 <= k < ps@.len() ==> #[trigger] out@[k] == &ps@[k],
                    forall|k: int| ps@.len() <= k < out@.len() ==> #[trigger] out@[k] == &m@[k - ps@.len()],
                decreases m@.len() - j,
            {
                out.push(&m[j]);
                j = j + 1;
            }
        },
    }
    out
}

impl BgpUpdate {
    /// End-of-RIB marker (RFC 4724): nothing withdrawn or announced, no
    /// MP_REACH, and MP_UNREACH (if any) without prefixes.
    pub fn is_eor(&self) -> (r: bool)
        ensures
            r == (self.withdrawn@.len() == 0 && self.announced@.len() == 0
                && self.attributes.mp_reach is None && match self.attributes.mp_unreach {
                None => true,
                Some(u) => u.prefixes@.len() == 0,
            }),
    {
        self.withdrawn.len() == 0 && self.announced.len() == 0 && self.attributes.mp_reach.is_none()
            && match &self.attributes.mp_unreach {
            None => true,
            Some(u) => u.prefixes.len() == 0,
        }
    }

    /// Announced prefixes (IPv4 NLRI, then MP_REACH) with their path ids;
    /// MP_REACH prefixes carry none.
    pub fn all_announced_with_path_id(&self) -> (r: Vec<(&Prefix, Option<u32>)>)
        ensures
            r@.len() == self.announced@.len() + match self.attributes.mp_reach {
                Some(m) => m.prefixes@.len(),
                None => 0,
            },
            forall|i: int|
                0 <= i < self.announced@.len() ==> #[trigger] r@[i] == (
                    &self.announced@[i],
                    id_at(self.announced_path_ids@, i),
                ),
            forall|j: int|
                self.announced@.len() <= j < r@.len() ==> #[trigger] r@[j] == (
                    &self.attributes.mp_reach->0.prefixes@[j - self.announced@.len()],
                    None::<u32>,
                ),
    {
        let extra = match &self.attributes.mp_reach {
            Some(m) => Some(&m.prefixes),
            None => None,
        };
        tagged_prefixes(&self.announced, &self.announced_path_ids, extra)
    }

    /// Withdrawn prefixes (IPv4 NLRI, then MP_UNREACH) with their path ids;
    /// MP_UNREACH prefixes carry none.
    pub fn all_withdrawn_with_path_id(&self) -> (r: Vec<(&Prefix, Option<u32>)>)
        ensures
            r@.len() == self.withdrawn@.len() + match self.attributes.mp_unreach {
                Some(m) => m.prefixes@.len(),
                None => 0,
            },
            forall|i: int|
                0 <= i < self.withdrawn@.len() ==> #[trigger] r@[i] == (
                    &self.withdrawn@[i],
                    id_at(self.withdrawn_path_ids@, i),
                ),
            forall|j: int|
                self.withdrawn@.len() <= j < r@.len() ==> #[trigger] r@[j] == (
                    &self.attributes.mp_unreach->0.prefixes@[j - self.withdrawn@.len()],
                    None::<u32>,
                ),
    {
        let extra = match &self.attributes.mp_unreach {
            Some(m) => Some(&m.prefixes),
            None => None,
        };
        tagged_prefixes(&self.withdrawn, &self.withdrawn_path_ids, extra)
    }

    /// Announced prefixes: IPv4 NLRI, then MP_REACH.
    pub fn all_announced(&self) -> (r: Vec<&Prefix>)
        ensures
            r@.len() == self.announced@.len() + match self.attributes.mp_reach {
                Some(m) => m.prefixes@.len(),
                None => 0,
            },
            forall|i: int| 0 <= i < self.announced@.len() ==> #[trigger] r@[i] == &self.announced@[i],
            forall|j: int|
                self.announced@.len() <= j < r@.len() ==> #[trigger] r@[j]
                    == &self.attributes.mp_reach->0.prefixes@[j - self.announced@.len()],
    {
        let extra = match &self.attributes.mp_reach {
            Some(m) => Some(&m.prefixes),
            None => None,
        };
        joined_prefixes(&self.announced, extra)
    }

    /// Withdrawn prefixes: IPv4 NLRI, then MP_UNREACH.
    pub fn all_withdrawn(&self) -> (r: Vec<&Prefix>)
        ensures
            r@.len() == self.withdrawn@.len() + match self.attributes.mp_unreach {
                Some(m) => m.prefixes@.len(),
                None => 0,
            },
            forall|i: int| 0 <= i < self.withdrawn@.len() ==> #[trigger] r@[i] == &self.withdrawn@[i],
            forall|j: int|
                self.withdrawn@.len() <= j < r@.len() ==> #[trigger] r@[j]
                    == &self.attributes.mp_unreach->0.prefixes@[j - self.withdrawn@.len()],
    {
        let extra = match &self.attributes.mp_unreach {
            Some(m) => Some(&m.prefixes),
            None => None,
        };
        joined_prefixes(&self.withdrawn, extra)
    }
}

} // verus!
