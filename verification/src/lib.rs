//! Verified BMP / BGP message decoding, route-policy evaluation and
//! enrichment logic for a BGP Monitoring Protocol collector.

pub mod error;
pub mod wire;
pub mod text;
pub mod calendar;
pub mod net;
pub mod bgp;
pub mod bmp;
pub mod enrichment;
pub mod rib;
pub mod cidr;
pub mod kafka;
pub mod mrt;
pub mod collector_protocol;
