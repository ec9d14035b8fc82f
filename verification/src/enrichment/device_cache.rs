//! A per-address cache of inventory lookups with a time to live, and the
//! request URLs of the inventory services.

use vstd::prelude::*;
use crate::net::{IpAddress, IpModel, ip_text};
use crate::text::push_text;
use crate::calendar::{
    UtcDateTime, datetime_text, end_of_year_9999, lemma_end_of_year_9999_bound,
    push_datetime, utc_datetime, denotes, epoch_secs, lemma_denotes_unique, parse_datetime_text,
};

verus! {

/// One cached lookup: the address, what was found (possibly nothing) and
/// when, in nanoseconds of a monotonic clock.
pub struct CachedLookup<T> {
    pub addr: IpAddress,
    pub device: Option<T>,
    pub fetched_at_ns: u64,
}

/// Lookups by address, each valid for `ttl_secs` seconds after it was made.
pub struct DeviceCache<T> {
    entries: Vec<CachedLookup<T>>,
    ttl_secs: u64,
}

/// Whether a lookup made at `fetched` is still valid at `now`: less than
/// the time to live has passed (no time passes when the clock reads
/// earlier).
pub open spec fn is_fresh(fetched: u64, now: u64, ttl_secs: u64) -> bool {
    (if now >= fetched { now - fetched } else { 0 }) < ttl_secs * 1_000_000_000
}

pub open spec fn addrs_unique<T>(s: Seq<CachedLookup<T>>) -> bool {
    forall|i: int, j: int| 0 <= i < s.len() && 0 <= j < s.len() && i != j ==> s[i].addr@ != s[j].addr@
}

pub open spec fn addr_at<T>(s: Seq<CachedLookup<T>>, a: IpModel, i: int) -> bool {
    0 <= i < s.len() && s[i].addr@ == a
}

/// The lookup cached for `a`, if any.
pub open spec fn cached_for<T>(s: Seq<CachedLookup<T>>, a: IpModel) -> Option<CachedLookup<T>> {
    if exists|i: int| addr_at(s, a, i) {
        Some(s[choose|i: int| addr_at(s, a, i)])
    } else {
        None
    }
}

proof fn lemma_cached_at<T>(s: Seq<CachedLookup<T>>, a: IpModel, k: int)
    requires
        addrs_unique(s),
        addr_at(s, a, k),
    ensures
        cached_for(s, a) == Some(s[k]),
{
    let j = choose|i: int| addr_at(s, a, i);
    assert(addr_at(s, a, j));
}

impl<T> DeviceCache<T> {
    #[verifier::type_invariant]
    spec fn inv(&self) -> bool {
        addrs_unique(self.entries@)
    }

    /// The cached lookups.
    pub closed spec fn lookups(&self) -> Seq<CachedLookup<T>> {
        self.entries@
    }

    /// The time to live, in seconds.
    pub closed spec fn ttl(&self) -> u64 {
        self.ttl_secs
    }

    /// An empty cache whose lookups live `ttl_secs` seconds.
    pub fn new(ttl_secs: u64) -> (r: Self)
        ensures
            r.lookups().len() == 0,
            r.ttl() == ttl_secs,
    {
        DeviceCache { entries: Vec::new(), ttl_secs }
    }

    fn position(&self, a: &IpAddress) -> (r: Option<usize>)
        ensures
            match r {
                Some(i) => addr_at(self.lookups(), a@, i as int),
                None => cached_for(self.lookups(), a@) is None,
            },
    {
        let mut i: usize = 0;
        while i < self.entries.len()
            invariant
                i <= self.entries.len(),
                forall|j: int| 0 <= j < i ==> self.entries@[j].addr@ != a@,
            decreases self.entries.len() - i,
        {
            if crate::rib::table::same_ip(&self.entries[i].addr, a) {
                return Some(i);
            }
            i = i + 1;
        }
        None
    }

    /// The cached result for `a` when it is still valid at `now_ns`; the
    /// inner `None` is a cached "not found".
    pub fn lookup(&self, a: &IpAddress, now_ns: u64) -> (r: Option<&Option<T>>)
        ensures
            match cached_for(self.lookups(), a@) {
                Some(c) => if is_fresh(c.fetched_at_ns, now_ns, self.ttl()) {
                    r == Some(&c.device)
                } else {
                    r is None
                },
                None => r is None,
            },
    {
        proof {
            use_type_invariant(self);
        }
        match self.position(a) {
            None => None,
            Some(i) => {
                proof {
                    lemma_cached_at(self.lookups(), a@, i as int);
                }
                let c = &self.entries[i];
                let elapsed: u64 = if now_ns >= c.fetched_at_ns { now_ns - c.fetched_at_ns } else { 0 };
                if (elapsed as u128) < (self.ttl_secs as u128) * 1_000_000_000 {
                    Some(&c.device)
                } else {
                    None
                }
            },
        }
    }

    /// Caches the result of a lookup of `a` made at `now_ns`, replacing an
    /// earlier one.
    pub fn store(&mut self, a: IpAddress, device: Option<T>, now_ns: u64)
        ensures
            final(self).ttl() == old(self).ttl(),
            cached_for(final(self).lookups(), a@) == Some(
                CachedLookup { addr: a, device, fetched_at_ns: now_ns },
            ),
            forall|b: IpModel| b != a@ ==> cached_for(final(self).lookups(), b) == cached_for(old(self).lookups(), b),
    {
        proof {
            use_type_invariant(&*self);
        }
        let ghost s = self.entries@;
        let e = CachedLookup { addr: a, device, fetched_at_ns: now_ns };
        let ghost ev = e;
        let pos = self.position(&a);
        let mut v: Vec<CachedLookup<T>> = Vec::new();
        std::mem::swap(&mut v, &mut self.entries);
        let ghost k: int;
        match pos {
            Some(i) => {
                v.set(i, e);
                proof {
                    k = i as int;
                }
            },
            None => {
                v.push(e);
                proof {
                    k = s.len() as int;
                }
            },
        }
        let ghost ns = v@;
        proof {
            assert(addrs_unique(ns)) by {
                assert forall|i: int, j: int|
                    0 <= i < ns.len() && 0 <= j < ns.len() && i != j implies ns[i].addr@ != ns[j].addr@ by {
                    if pos is Some {
                        assert(s[k].addr@ == a@);
                        if i != k && j != k {
                            assert(ns[i] == s[i] && ns[j] == s[j]);
                        } else if i == k {
                            assert(ns[j] == s[j]);
                            assert(s[j].addr@ != s[k].addr@);
                        } else {
                            assert(ns[i] == s[i]);
                            assert(s[i].addr@ != s[k].addr@);
                        }
                    } else {
                        if i == k {
                            assert(!addr_at(s, a@, j));
                        } else if j == k {
                            assert(!addr_at(s, a@, i));
                        } else {
                            assert(ns[i] == s[i] && ns[j] == s[j]);
                        }
                    }
                }
            }
            assert(addr_at(ns, a@, k));
            lemma_cached_at(ns, a@, k);
            assert forall|b: IpModel| b != a@ implies cached_for(ns, b) == cached_for(s, b) by {
                if exists|i: int| addr_at(s, b, i) {
                    let i = choose|i: int| addr_at(s, b, i);
                    assert(i != k);
                    assert(addr_at(ns, b, i));
                    lemma_cached_at(ns, b, i);
                    lemma_cached_at(s, b, i);
                }
                if exists|i: int| addr_at(ns, b, i) {
                    let i = choose|i: int| addr_at(ns, b, i);
                    assert(i != k);
                    assert(addr_at(s, b, i));
                }
            }
        }
        self.entries = v;
    }

    /// Forgets every cached lookup.
    pub fn clear(&mut self)
        ensures
            final(self).lookups().len() == 0,
            final(self).ttl() == old(self).ttl(),
    {
        self.entries = Vec::new();
    }

    /// Number of cached lookups.
    pub fn size(&self) -> (r: usize)
        ensures
            r == self.lookups().len(),
    {
        self.entries.len()
    }
}

/// `s` without its trailing slashes.
pub open spec fn trim_slashes(s: Seq<char>) -> Seq<char>
    decreases s.len(),
{
    if s.len() > 0 && s.last() == '/' {
        trim_slashes(s.drop_last())
    } else {
        s
    }
}

fn push_trimmed(out: &mut String, base: &str)
    ensures
        final(out)@ == old(out)@ + trim_slashes(base@),
{
    let n = base.unicode_len();
    let mut end: usize = n;
    assert(base@.subrange(0, n as int) =~= base@);
    while end > 0 && base.get_char(end - 1) == '/'
        invariant
            n == base@.len(),
            end <= n,
            trim_slashes(base@) == trim_slashes(base@.subrange(0, end as int)),
        decreases end,
    {
        proof {
            assert(base@.subrange(0, end as int).drop_last() =~= base@.subrange(0, end - 1));
        }
        end = end - 1;
    }
    let mut i: usize = 0;
    while i < end
        invariant
            n == base@.len(),
            i <= end <= n,
            out@ == old(out)@ + base@.subrange(0, i as int),
        decreases end - i,
    {
        out.push(base.get_char(i));
        i = i + 1;
        assert(out@ =~= old(out)@ + base@.subrange(0, i as int));
    }
    proof {
        let t = base@.subrange(0, end as int);
        assert(!(t.len() > 0 && t.last() == '/'));
        assert(base@.subrange(0, 0) =~= Seq::<char>::empty());
        assert(trim_slashes(base@) == t);
    }
}

/// The NetBox device query for the device whose primary address is `ip`.
pub open spec fn netbox_url_text(base: Seq<char>, ip: IpAddress) -> Seq<char> {
    trim_slashes(base) + "/api/dcim/devices/?primary_ip="@ + ip_text(ip)
}

/// The NetBox device query URL for `ip`.
pub fn netbox_device_url(base: &str, ip: &IpAddress) -> (r: String)
    ensures
        r@ == netbox_url_text(base@, *ip),
{
    let mut s = String::new();
    push_trimmed(&mut s, base);
    push_text(&mut s, "/api/dcim/devices/?primary_ip=");
    let t = ip.to_text();
    push_text(&mut s, t.as_str());
    s
}

/// The CMDB network-gear query for `ip`.
pub open spec fn cmdb_url_text(base: Seq<char>, ip: IpAddress) -> Seq<char> {
    trim_slashes(base) + "/api/now/table/cmdb_ci_network_gear?ip_address="@ + ip_text(ip) + "&sysparm_limit=1"@
}

/// The CMDB network-gear query URL for `ip` (one result at most).
pub fn cmdb_device_url(base: &str, ip: &IpAddress) -> (r: String)
    ensures
        r@ == cmdb_url_text(base@, *ip),
{
    let mut s = String::new();
    push_trimmed(&mut s, base);
    push_text(&mut s, "/api/now/table/cmdb_ci_network_gear?ip_address=");
    let t = ip.to_text();
    push_text(&mut s, t.as_str());
    push_text(&mut s, "&sysparm_limit=1");
    s
}

/// How far each side of a moment the search for change requests reaches:
/// two hours.
pub const CHANGE_WINDOW_SECS: u64 = 7200;

/// The query for change requests in state 2 whose planned window
/// [start_date, end_date] meets the window from `lo` to `hi`.
pub open spec fn changes_url_text(base: Seq<char>, lo: Seq<char>, hi: Seq<char>) -> Seq<char> {
    trim_slashes(base) + "/api/now/table/change_request?sysparm_query=state=2^start_date<="@ + hi
        + "^end_date>="@ + lo
}

/// Whether `u` is the change-request query of `base` for the window of
/// `lo` to `hi`, two hours each side of the Unix timestamp `timestamp`.
#[verifier::opaque]
pub open spec fn window_query(
    u: Seq<char>,
    base: Seq<char>,
    timestamp: int,
    lo: UtcDateTime,
    hi: UtcDateTime,
) -> bool {
    &&& lo.valid() && lo.epoch_seconds() == timestamp - CHANGE_WINDOW_SECS
    &&& hi.valid() && hi.epoch_seconds() == timestamp + CHANGE_WINDOW_SECS
    &&& u == changes_url_text(base, datetime_text(lo), datetime_text(hi))
}

/// The change-request query URL for the open changes within two hours of
/// the Unix timestamp `timestamp`, the window's ends written as UTC
/// "YYYY-MM-DD HH:MM:SS". `None` when the window reaches before 1970 or
/// past the year 9999.
pub fn changes_near_url(base: &str, timestamp: u64) -> (r: Option<String>)
    ensures
        r is Some <==> (timestamp >= CHANGE_WINDOW_SECS && timestamp + CHANGE_WINDOW_SECS
            < end_of_year_9999()),
        r is Some ==> exists|lo: UtcDateTime, hi: UtcDateTime|
            #[trigger] window_query(r->0@, base@, timestamp as int, lo, hi),
{
    if timestamp < CHANGE_WINDOW_SECS || timestamp > u64::MAX - CHANGE_WINDOW_SECS {
        proof {
            if timestamp >= CHANGE_WINDOW_SECS {
                lemma_end_of_year_9999_bound();
            }
        }
        return None;
    }
    let lo = match utc_datetime(timestamp - CHANGE_WINDOW_SECS) {
        Some(d) => d,
        None => {
            return None;
        },
    };
    let hi = match utc_datetime(timestamp + CHANGE_WINDOW_SECS) {
        Some(d) => d,
        None => {
            return None;
        },
    };
    let mut s = String::new();
    push_trimmed(&mut s, base);
    push_text(&mut s, "/api/now/table/change_request?sysparm_query=state=2^start_date<=");
    push_datetime(&mut s, &hi);
    push_text(&mut s, "^end_date>=");
    push_datetime(&mut s, &lo);
    assert(window_query(s@, base@, timestamp as int, lo, hi)) by {
        reveal(window_query);
    }
    let r = Some(s);
    assert(window_query(r->0@, base@, timestamp as int, lo, hi));
    r
}

/// Why no change-request query could be written for a timestamp.
#[derive(Clone, Copy, Debug, PartialEq, Eq, Structural)]
pub enum ChangeQueryError {
    /// The text is not "YYYY-MM-DD HH:MM:SS" of a real UTC date and time of
    /// the years 1970 to 9999.
    BadTimestamp,
    /// The two-hour window around it reaches before 1970 or past 9999.
    OutOfRange,
}

/// What the change-request query for the moment `s` comes to: a query
/// exactly when the window stays within 1970 to 9999, and that query is the
/// one for the window.
pub open spec fn window_outcome(r: Result<String, ChangeQueryError>, base: Seq<char>, s: int) -> bool {
    &&& (r is Ok <==> (s >= CHANGE_WINDOW_SECS && s + CHANGE_WINDOW_SECS < end_of_year_9999()))
    &&& (r is Ok ==> exists|lo: UtcDateTime, hi: UtcDateTime|
        #[trigger] window_query(r->Ok_0@, base, s, lo, hi))
    &&& (r is Err ==> r == Err::<String, ChangeQueryError>(ChangeQueryError::OutOfRange))
}

proof fn lemma_outcome_of_parsed(
    text: Seq<char>,
    d: UtcDateTime,
    r: Result<String, ChangeQueryError>,
    base: Seq<char>,
)
    requires
        denotes(text, d),
        window_outcome(r, base, d.epoch_seconds()),
    ensures
        forall|e: UtcDateTime| #[trigger]
            denotes(text, e) ==> window_outcome(r, base, e.epoch_seconds()),
{
    assert forall|e: UtcDateTime| #[trigger] denotes(text, e) implies window_outcome(
        r,
        base,
        e.epoch_seconds(),
    ) by {
        lemma_denotes_unique(text, d, e);
    }
}

/// The change-request query URL for the open changes within two hours of
/// `timestamp`, a UTC "YYYY-MM-DD HH:MM:SS".
pub fn changes_near_query(base: &str, timestamp: &str) -> (r: Result<String, ChangeQueryError>)
    ensures
        (forall|d: UtcDateTime| !#[trigger] denotes(timestamp@, d)) ==> r == Err::<
            String,
            ChangeQueryError,
        >(ChangeQueryError::BadTimestamp),
        forall|d: UtcDateTime| #[trigger]
            denotes(timestamp@, d) ==> window_outcome(r, base@, d.epoch_seconds()),
{
    let d = match parse_datetime_text(timestamp) {
        None => {
            return Err(ChangeQueryError::BadTimestamp);
        },
        Some(d) => d,
    };
    let secs = epoch_secs(&d);
    let q = changes_near_url(base, secs);
    let ghost gq = q;
    let r = match q {
        Some(u) => Ok(u),
        None => Err(ChangeQueryError::OutOfRange),
    };
    proof {
        if gq is Some {
            assert(r->Ok_0 == gq->0);
            assert(exists|lo: UtcDateTime, hi: UtcDateTime|
                #[trigger] window_query(gq->0@, base@, secs as int, lo, hi));
        }
        assert(window_outcome(r, base@, secs as int));
        lemma_outcome_of_parsed(timestamp@, d, r, base@);
    }
    r
}

} // verus!
