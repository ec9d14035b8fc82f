//! Route enrichment: path security validation and external metadata.

pub mod aspa;
pub mod vrp_cache;
pub mod rtr;
pub mod annotate;
pub mod bgpsec;
pub mod vault;
pub mod netbox;
pub mod servicenow_cmdb;
pub mod device_cache;
