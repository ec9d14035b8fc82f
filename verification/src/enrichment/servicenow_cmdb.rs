//! Records of a ServiceNow CMDB: configuration, network devices and change
//! requests.

use vstd::prelude::*;

verus! {

/// Where and how to reach the ServiceNow instance.
#[derive(Debug, Clone)]
pub struct ServiceNowCmdbConfig {
    /// Instance URL.
    pub instance_url: String,
    /// Basic-auth user name.
    pub username: String,
    /// Basic-auth password.
    pub password: String,
    /// How long a looked-up device stays cached, in seconds.
    pub cache_ttl_secs: u64,
}

/// A network device of the CMDB.
#[derive(Debug, Clone)]
pub struct CmdbDevice {
    pub ci_name: String,
    pub role: String,
    pub site: String,
}

/// A change request.
#[derive(Debug, Clone)]
pub struct ChangeRecord {
    pub number: String,
    pub short_description: String,
    pub state: String,
    pub start_date: String,
    pub end_date: String,
}

} // verus!
