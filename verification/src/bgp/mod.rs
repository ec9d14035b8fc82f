//! BGP-4 message model and decoders.

pub mod types;
pub mod attributes;
pub mod nlri;
pub mod capabilities;
pub mod open;
pub mod srv6;
pub mod flowspec;
pub mod srpolicy;
pub mod evpn;
pub mod bgpls;
pub mod mp;
pub mod path_attrs;
pub mod update;
pub mod mvpn;
