//! Device metadata from a NetBox DCIM inventory: configuration, the device
//! record the enricher keeps, and the mapping from an API result to it.

use vstd::prelude::*;

verus! {

/// Where and how to reach NetBox.
#[derive(Debug, Clone)]
pub struct NetboxConfig {
    /// Base URL, such as "https://netbox.example.com".
    pub url: String,
    /// API token.
    pub token: String,
    /// How long a looked-up device stays cached, in seconds.
    pub cache_ttl_secs: u64,
}

/// The cache lifetime used when the configuration gives none: fifteen
/// minutes.
pub fn default_cache_ttl_secs() -> (r: u64)
    ensures
        r == 900,
{
    900
}

/// A device's inventory metadata.
#[derive(Debug, Clone)]
pub struct NetboxDevice {
    pub hostname: String,
    pub site: String,
    pub role: String,
    pub model: String,
}

/// A named reference in an API result (site, role).
#[derive(Debug, Clone)]
pub struct NetboxRef {
    pub name: Option<String>,
    pub slug: Option<String>,
}

/// A device type reference in an API result.
#[derive(Debug, Clone)]
pub struct NetboxTypeRef {
    pub model: Option<String>,
}

/// One device of an API result; every field may be missing.
#[derive(Debug, Clone)]
pub struct NetboxDeviceResult {
    pub name: Option<String>,
    pub site: Option<NetboxRef>,
    pub device_role: Option<NetboxRef>,
    pub device_type: Option<NetboxTypeRef>,
}

/// The text held, or the empty text.
pub open spec fn text_or_empty(t: Option<String>) -> Seq<char> {
    match t {
        Some(s) => s@,
        None => Seq::empty(),
    }
}

/// The name of a reference, or the empty text.
pub open spec fn ref_name(r: Option<NetboxRef>) -> Seq<char> {
    match r {
        Some(x) => text_or_empty(x.name),
        None => Seq::empty(),
    }
}

fn text_of(t: &Option<String>) -> (r: String)
    ensures
        r@ == text_or_empty(*t),
{
    match t {
        Some(s) => s.clone(),
        None => String::new(),
    }
}

fn name_of(r: &Option<NetboxRef>) -> (s: String)
    ensures
        s@ == ref_name(*r),
{
    match r {
        Some(x) => text_of(&x.name),
        None => String::new(),
    }
}

impl NetboxDeviceResult {
    /// The device record: each missing field becomes the empty text.
    pub fn to_device(&self) -> (d: NetboxDevice)
        ensures
            d.hostname@ == text_or_empty(self.name),
            d.site@ == ref_name(self.site),
            d.role@ == ref_name(self.device_role),
            d.model@ == match self.device_type {
                Some(t) => text_or_empty(t.model),
                None => Seq::<char>::empty(),
            },
    {
        let model = match &self.device_type {
            Some(t) => text_of(&t.model),
            None => String::new(),
        };
        NetboxDevice {
            hostname: text_of(&self.name),
            site: name_of(&self.site),
            role: name_of(&self.device_role),
            model,
        }
    }
}

} // verus!
