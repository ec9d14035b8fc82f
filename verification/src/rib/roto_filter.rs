//! The script filter engine. Without a script compiler built in, it loads
//! nothing and leaves every route to the default verdict.

use vstd::prelude::*;
use crate::rib::filter::FilterVerdict;
use crate::rib::roto_ctx::RouteCtx;
use crate::text::push_text;

verus! {

/// Counters of filter verdicts; the counters wrap around as atomic
/// additions do.
#[derive(Debug)]
pub struct RotoFilterStats {
    pub accept_count: u64,
    pub deny_count: u64,
    pub error_count: u64,
    /// Total evaluation time in nanoseconds.
    pub total_ns: u64,
}

pub open spec fn wrap_add(a: u64, b: u64) -> u64 {
    ((a as int + b as int) % 0x1_0000_0000_0000_0000) as u64
}

/// Summary of the counters: counts and mean evaluation time per decided
impl Default for RotoFilterStats {
    /// All counters zero.
    fn default() -> (r: RotoFilterStats)
        ensures
            r.accept_count == 0 && r.deny_count == 0 && r.error_count == 0 && r.total_ns == 0,
    {
        RotoFilterStats::new()
    }
}

/// route.
#[derive(Debug, Clone, Copy, PartialEq, Eq, Structural)]
pub struct StatsSnapshot {
    pub accept_count: u64,
    pub deny_count: u64,
    pub error_count: u64,
    pub avg_eval_ns: u64,
}

impl RotoFilterStats {
    /// All counters at zero.
    pub fn new() -> (r: RotoFilterStats)
        ensures
            r.accept_count == 0 && r.deny_count == 0 && r.error_count == 0 && r.total_ns == 0,
    {
        RotoFilterStats { accept_count: 0, deny_count: 0, error_count: 0, total_ns: 0 }
    }

    /// Counts a verdict (accept or deny; a default verdict counts no route)
    /// and adds its evaluation time.
    pub fn record(&mut self, verdict: FilterVerdict, elapsed_ns: u64)
        ensures
            final(self).accept_count == (if verdict == FilterVerdict::Accept {
                wrap_add(old(self).accept_count, 1)
            } else {
                old(self).accept_count
            }),
            final(self).deny_count == (if verdict == FilterVerdict::Deny {
                wrap_add(old(self).deny_count, 1)
            } else {
                old(self).deny_count
            }),
            final(self).error_count == old(self).error_count,
            final(self).total_ns == wrap_add(old(self).total_ns, elapsed_ns),
    {
        match verdict {
            FilterVerdict::Accept => {
                self.accept_count = self.accept_count.wrapping_add(1);
            },
            FilterVerdict::Deny => {
                self.deny_count = self.deny_count.wrapping_add(1);
            },
            FilterVerdict::Default => {},
        }
        self.total_ns = self.total_ns.wrapping_add(elapsed_ns);
    }

    /// The counters and the mean time per accepted or denied route (0
    /// before any).
    pub fn snapshot(&self) -> (r: StatsSnapshot)
        requires
            self.accept_count + self.deny_count <= u64::MAX,
        ensures
            r.accept_count == self.accept_count,
            r.deny_count == self.deny_count,
            r.error_count == self.error_count,
            r.avg_eval_ns == (if self.accept_count + self.deny_count > 0 {
                self.total_ns / (self.accept_count + self.deny_count) as u64
            } else {
                0
            }),
    {
        let total = self.accept_count + self.deny_count;
        let avg = if total > 0 {
            self.total_ns / total
        } else {
            0
        };
        StatsSnapshot {
            accept_count: self.accept_count,
            deny_count: self.deny_count,
            error_count: self.error_count,
            avg_eval_ns: avg,
        }
    }
}

/// Why a script filter could not be loaded.
#[derive(Debug, Clone, Copy, PartialEq, Eq, Structural)]
pub enum RotoFilterError {
    /// The script could not be read or compiled.
    Load,
}

/// The script filter engine.
#[derive(Debug)]
pub struct RotoFilterEngine {
    pub path: String,
    pub stats: RotoFilterStats,
}

impl RotoFilterEngine {
    /// Loads the script at `path`. No compiler is built in, so the engine
    /// loads nothing and always succeeds.
    pub fn load(path: &str) -> (r: Result<RotoFilterEngine, RotoFilterError>)
        ensures
            r matches Ok(e) && e.path@ == path@ && e.stats.accept_count == 0 && e.stats.deny_count
                == 0 && e.stats.error_count == 0 && e.stats.total_ns == 0,
    {
        let mut p = String::new();
        push_text(&mut p, path);
        assert(p@ =~= path@);
        Ok(RotoFilterEngine { path: p, stats: RotoFilterStats::new() })
    }

    /// Reloads the script; without a compiler this never succeeds.
    pub fn reload(&mut self) -> (r: bool)
        ensures
            !r,
            final(self).path == old(self).path,
    {
        false
    }

    /// The verdict for a route: always `Default` (accept).
    pub fn evaluate(&self, ctx: &RouteCtx) -> (r: FilterVerdict)
        ensures
            r == FilterVerdict::Default,
    {
        FilterVerdict::Default
    }

    /// The engine's counters.
    pub fn stats_snapshot(&self) -> (r: StatsSnapshot)
        requires
            self.stats.accept_count + self.stats.deny_count <= u64::MAX,
        ensures
            r == self.stats.snapshot_spec(),
    {
        self.stats.snapshot()
    }
}

impl RotoFilterStats {
    pub open spec fn snapshot_spec(&self) -> StatsSnapshot {
        StatsSnapshot {
            accept_count: self.accept_count,
            deny_count: self.deny_count,
            error_count: self.error_count,
            avg_eval_ns: if self.accept_count + self.deny_count > 0 {
                self.total_ns / (self.accept_count + self.deny_count) as u64
            } else {
                0
            },
        }
    }
}

} // verus!
