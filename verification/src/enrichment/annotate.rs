//! Per-route annotations from the enrichment sources.

use vstd::prelude::*;
use crate::cidr::{IpNetwork, ipnet_text_net, parse_ip_net};
use crate::enrichment::vrp_cache::{RpkiState, VrpCache, rpki_state};

verus! {

/// Annotation of one announced route.
#[derive(Clone, Copy, Debug, PartialEq, Eq, Structural)]
pub struct RouteAnnotation {
    /// RPKI validation result of the prefix and origin.
    pub rpki: RpkiState,
    /// Whether the prefix is valid and longer than the covering ROA's.
    pub rpki_more_specific: bool,
}

/// Combines the enrichment sources into per-route annotations.
pub struct EnrichmentEngine {
    pub vrp_cache: VrpCache,
}

impl EnrichmentEngine {
    /// An engine over a VRP table.
    pub fn new(vrp_cache: VrpCache) -> (r: EnrichmentEngine)
        ensures
            r.vrp_cache == vrp_cache,
    {
        EnrichmentEngine { vrp_cache }
    }

    /// Annotates an announced route. The more-specific flag compares the
    /// prefix's length with itself, so it is never set.
    pub fn annotate(&self, prefix: &IpNetwork, origin_asn: u32) -> (r: RouteAnnotation)
        ensures
            r.rpki == rpki_state(self.vrp_cache.entries(), prefix@, origin_asn),
            !r.rpki_more_specific,
    {
        let rpki = self.vrp_cache.validate(prefix, origin_asn);
        let ann_len = prefix.prefix_len();
        let rpki_more_specific = rpki == RpkiState::Valid && ann_len > prefix.prefix_len();
        RouteAnnotation { rpki, rpki_more_specific }
    }

    /// Annotates a route given as text ("192.0.2.0/24"); a text that does not
    /// parse gives `NotFound`.
    pub fn annotate_str(&self, prefix_str: &str, origin_asn: u32) -> (r: RouteAnnotation)
        ensures
            r.rpki == match ipnet_text_net(prefix_str@) {
                Some(n) => rpki_state(self.vrp_cache.entries(), n, origin_asn),
                None => RpkiState::NotFound,
            },
            !r.rpki_more_specific,
    {
        match parse_ip_net(prefix_str) {
            Some(net) => self.annotate(&net, origin_asn),
            None => RouteAnnotation { rpki: RpkiState::NotFound, rpki_more_specific: false },
        }
    }

    /// Number of VRPs.
    pub fn vrp_count(&self) -> (r: usize)
        ensures
            r == self.vrp_cache.entries().len(),
    {
        self.vrp_cache.len()
    }

    /// Serial of the VRP data.
    pub fn rtr_serial(&self) -> (r: u32)
        ensures
            r == self.vrp_cache.serial_spec(),
    {
        self.vrp_cache.serial()
    }
}

} // verus!
