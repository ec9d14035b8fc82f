//! Topic names: a configurable prefix joined to a well-known suffix.

use vstd::prelude::*;
use crate::text::push_text;

verus! {

/// Router events.
pub const TOPIC_ROUTER: &'static str = "router";

/// Peer up/down events.
pub const TOPIC_PEER: &'static str = "peer";

/// Unicast prefix announcements and withdrawals.
pub const TOPIC_UNICAST: &'static str = "unicast_prefix";

/// EVPN routes.
pub const TOPIC_EVPN: &'static str = "evpn";

/// BGP-LS node records.
pub const TOPIC_BGPLS: &'static str = "ls_node";

/// Statistics reports.
pub const TOPIC_STATS: &'static str = "bmp_stat";

/// Raw BMP messages.
pub const TOPIC_RAW: &'static str = "bmp_raw";

/// The full topic name: `suffix` alone for an empty prefix, else
/// `prefix.suffix`.
pub open spec fn topic_name(prefix: Seq<char>, suffix: Seq<char>) -> Seq<char> {
    if prefix.len() == 0 {
        suffix
    } else {
        prefix + seq!['.'] + suffix
    }
}

/// Builds the fully qualified topic name from a prefix and a suffix.
pub fn topic(prefix: &str, suffix: &str) -> (r: String)
    ensures
        r@ == topic_name(prefix@, suffix@),
{
    if prefix.is_empty() {
        String::from_str(suffix)
    } else {
        let mut s = String::new();
        push_text(&mut s, prefix);
        s.push('.');
        push_text(&mut s, suffix);
        assert(s@ =~= prefix@ + seq!['.'] + suffix@);
        s
    }
}

} // verus!
