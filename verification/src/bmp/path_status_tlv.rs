//! Path Status TLV carried in BMP Route Monitoring messages
//! (draft-ietf-grow-bmp-path-marking-tlv): a 4-byte status bitmap followed
//! by an optional 2-byte reason code.

use vstd::prelude::*;
use crate::wire::{be16_at, be32_at, read_u16, read_u32};

verus! {

/// Default TLV type of the Path Status TLV.
pub const PATH_STATUS_TLV_TYPE: u16 = 6;

pub const STATUS_INVALID: u32 = 0x0001;
pub const STATUS_BEST: u32 = 0x0002;
pub const STATUS_NONSELECTED: u32 = 0x0004;
pub const STATUS_PRIMARY: u32 = 0x0008;
pub const STATUS_BACKUP: u32 = 0x0010;
pub const STATUS_NON_INSTALLED: u32 = 0x0020;
pub const STATUS_BEST_EXTERNAL: u32 = 0x0040;
pub const STATUS_ADD_PATH: u32 = 0x0080;
pub const STATUS_FILTERED_INBOUND: u32 = 0x0100;
pub const STATUS_FILTERED_OUTBOUND: u32 = 0x0200;
pub const STATUS_STALE: u32 = 0x0400;
pub const STATUS_SUPPRESSED: u32 = 0x0800;

/// Parsed Path Status TLV; several status bits may be set at once.
#[derive(Clone, Copy, Debug, PartialEq, Eq, Structural)]
pub struct PathStatusTlv {
    /// Status bitmap; zero means no status information.
    pub status: u32,
    /// Reason code; zero means absent or not applicable.
    pub reason: u16,
}

impl Default for PathStatusTlv {
    fn default() -> (r: PathStatusTlv)
        ensures
            r.status == 0 && r.reason == 0,
    {
        PathStatusTlv { status: 0, reason: 0 }
    }
}

/// Whether any bit of `mask` is set in `status`.
pub open spec fn has_bit(status: u32, mask: u32) -> bool {
    status & mask != 0
}

/// Label of the dominant status bit, in the documented priority order.
pub open spec fn status_label(s: u32) -> Seq<char> {
    if has_bit(s, STATUS_BEST) {
        "best"@
    } else if has_bit(s, STATUS_PRIMARY) {
        "primary"@
    } else if has_bit(s, STATUS_BACKUP) {
        "backup"@
    } else if has_bit(s, STATUS_BEST_EXTERNAL) {
        "best-external"@
    } else if has_bit(s, STATUS_ADD_PATH) {
        "add-path"@
    } else if has_bit(s, STATUS_NONSELECTED) {
        "nonselected"@
    } else if has_bit(s, STATUS_FILTERED_INBOUND) {
        "filtered-inbound"@
    } else if has_bit(s, STATUS_FILTERED_OUTBOUND) {
        "filtered-outbound"@
    } else if has_bit(s, STATUS_STALE) {
        "stale"@
    } else if has_bit(s, STATUS_SUPPRESSED) {
        "suppressed"@
    } else if has_bit(s, STATUS_NON_INSTALLED) {
        "non-installed"@
    } else if has_bit(s, STATUS_INVALID) {
        "invalid"@
    } else {
        "unknown"@
    }
}

/// Text of a reason code (empty for codes without one).
pub open spec fn reason_text(r: u16) -> Seq<char> {
    if r == 1 {
        "AS loop"@
    } else if r == 2 {
        "unresolvable nexthop"@
    } else if r == 3 {
        "not preferred: LOCAL_PREF"@
    } else if r == 4 {
        "not preferred: AS_PATH length"@
    } else if r == 5 {
        "not preferred: ORIGIN type"@
    } else if r == 6 {
        "not preferred: MED"@
    } else if r == 7 {
        "not preferred: peer type"@
    } else if r == 8 {
        "not preferred: IGP cost"@
    } else if r == 9 {
        "not preferred: router-ID"@
    } else if r == 10 {
        "not preferred: peer address"@
    } else if r == 11 {
        "not preferred: AIGP"@
    } else {
        ""@
    }
}

impl PathStatusTlv {
    pub fn is_invalid(&self) -> (r: bool)
        ensures
            r == has_bit(self.status, STATUS_INVALID),
    {
        self.status & STATUS_INVALID != 0
    }

    pub fn is_best(&self) -> (r: bool)
        ensures
            r == has_bit(self.status, STATUS_BEST),
    {
        self.status & STATUS_BEST != 0
    }

    pub fn is_nonselected(&self) -> (r: bool)
        ensures
            r == has_bit(self.status, STATUS_NONSELECTED),
    {
        self.status & STATUS_NONSELECTED != 0
    }

    pub fn is_primary(&self) -> (r: bool)
        ensures
            r == has_bit(self.status, STATUS_PRIMARY),
    {
        self.status & STATUS_PRIMARY != 0
    }

    pub fn is_backup(&self) -> (r: bool)
        ensures
            r == has_bit(self.status, STATUS_BACKUP),
    {
        self.status & STATUS_BACKUP != 0
    }

    pub fn is_non_installed(&self) -> (r: bool)
        ensures
            r == has_bit(self.status, STATUS_NON_INSTALLED),
    {
        self.status & STATUS_NON_INSTALLED != 0
    }

    pub fn is_best_external(&self) -> (r: bool)
        ensures
            r == has_bit(self.status, STATUS_BEST_EXTERNAL),
    {
        self.status & STATUS_BEST_EXTERNAL != 0
    }

    pub fn is_add_path(&self) -> (r: bool)
        ensures
            r == has_bit(self.status, STATUS_ADD_PATH),
    {
        self.status & STATUS_ADD_PATH != 0
    }

    pub fn is_filtered_inbound(&self) -> (r: bool)
        ensures
            r == has_bit(self.status, STATUS_FILTERED_INBOUND),
    {
        self.status & STATUS_FILTERED_INBOUND != 0
    }

    pub fn is_filtered_outbound(&self) -> (r: bool)
        ensures
            r == has_bit(self.status, STATUS_FILTERED_OUTBOUND),
    {
        self.status & STATUS_FILTERED_OUTBOUND != 0
    }

    pub fn is_stale(&self) -> (r: bool)
        ensures
            r == has_bit(self.status, STATUS_STALE),
    {
        self.status & STATUS_STALE != 0
    }

    pub fn is_suppressed(&self) -> (r: bool)
        ensures
            r == has_bit(self.status, STATUS_SUPPRESSED),
    {
        self.status & STATUS_SUPPRESSED != 0
    }

    /// Label of the dominant (highest-priority) status bit.
    pub fn label(&self) -> (r: &'static str)
        ensures
            r@ == status_label(self.status),
    {
        if self.is_best() {
            return "best";
        }
        if self.is_primary() {
            return "primary";
        }
        if self.is_backup() {
            return "backup";
        }
        if self.is_best_external() {
            return "best-external";
        }
        if self.is_add_path() {
            return "add-path";
        }
        if self.is_nonselected() {
            return "nonselected";
        }
        if self.is_filtered_inbound() {
            return "filtered-inbound";
        }
        if self.is_filtered_outbound() {
            return "filtered-outbound";
        }
        if self.is_stale() {
            return "stale";
        }
        if self.is_suppressed() {
            return "suppressed";
        }
        if self.is_non_installed() {
            return "non-installed";
        }
        if self.is_invalid() {
            return "invalid";
        }
        "unknown"
    }

    /// Reason for non-best selection, empty for unknown codes.
    pub fn reason_label(&self) -> (r: &'static str)
        ensures
            r@ == reason_text(self.reason),
    {
        match self.reason {
            1 => "AS loop",
            2 => "unresolvable nexthop",
            3 => "not preferred: LOCAL_PREF",
            4 => "not preferred: AS_PATH length",
            5 => "not preferred: ORIGIN type",
            6 => "not preferred: MED",
            7 => "not preferred: peer type",
            8 => "not preferred: IGP cost",
            9 => "not preferred: router-ID",
            10 => "not preferred: peer address",
            11 => "not preferred: AIGP",
            _ => "",
        }
    }

    /// Whether the path is best or a primary ECMP member.
    pub fn is_active(&self) -> (r: bool)
        ensures
            r == (has_bit(self.status, STATUS_BEST) || has_bit(self.status, STATUS_PRIMARY)),
    {
        self.is_best() || self.is_primary()
    }
}

/// The TLV value `d` decoded: bitmap from the first 4 bytes, reason code from
/// the next 2 when present; None when `d` is shorter than 4 bytes.
pub open spec fn spec_path_status(d: Seq<u8>) -> Option<PathStatusTlv> {
    if d.len() < 4 {
        None
    } else {
        Some(
            PathStatusTlv {
                status: be32_at(d, 0) as u32,
                reason: if d.len() >= 6 {
                    be16_at(d, 4) as u16
                } else {
                    0
                },
            },
        )
    }
}

/// Decodes a Path Status TLV value.
pub fn parse_path_status_tlv(data: &[u8]) -> (r: Option<PathStatusTlv>)
    ensures
        r == spec_path_status(data@),
{
    if data.len() < 4 {
        return None;
    }
    let status = read_u32(data, 0);
    let reason = if data.len() >= 6 {
        read_u16(data, 4)
    } else {
        0
    };
    Some(PathStatusTlv { status, reason })
}

/// First TLV of type `t` in the stream `s` (type(2) + length(2) + value),
/// decoded; the scan stops at a TLV whose value runs past the end.
pub open spec fn spec_find_path_status(s: Seq<u8>, t: u16) -> Option<PathStatusTlv>
    decreases s.len(),
{
    if s.len() < 4 {
        None
    } else {
        let l = be16_at(s, 2);
        if 4 + l > s.len() {
            None
        } else if be16_at(s, 0) == t {
            spec_path_status(s.subrange(4, 4 + l))
        } else {
            spec_find_path_status(s.skip(4 + l), t)
        }
    }
}

/// Scans a TLV stream for the Path Status TLV of type `tlv_type`.
pub fn find_path_status_tlv(data: &[u8], tlv_type: u16) -> (r: Option<PathStatusTlv>)
    ensures
        r == spec_find_path_status(data@, tlv_type),
{
    let mut pos: usize = 0;
    proof {
        assert(data@.skip(0) =~= data@);
    }
    while data.len() - pos >= 4
        invariant
            pos <= data.len(),
            spec_find_path_status(data@, tlv_type) == spec_find_path_status(
                data@.skip(pos as int),
                tlv_type,
            ),
        decreases data.len() - pos,
    {
        let ghost s = data@.skip(pos as int);
        let t = read_u16(data, pos);
        let l = read_u16(data, pos + 2) as usize;
        proof {
            assert(be16_at(s, 0) == be16_at(data@, pos as int));
            assert(be16_at(s, 2) == be16_at(data@, pos + 2));
        }
        if l > data.len() - pos - 4 {
            return None;
        }
        if t == tlv_type {
            let sub = crate::wire::copy_range(data, pos + 4, l);
            proof {
                assert(s.subrange(4, 4 + l as int) =~= data@.subrange(pos + 4, pos + 4 + l));
            }
            return parse_path_status_tlv(sub.as_slice());
        }
        proof {
            assert(s.skip(4 + l as int) =~= data@.skip(pos + 4 + l));
        }
        pos = pos + 4 + l;
    }
    None
}

} // verus!
