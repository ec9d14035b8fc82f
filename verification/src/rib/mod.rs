//! Route information base: policy evaluation over received routes.

pub mod filter_expr;
pub mod filter;
pub mod session;
pub mod table;
pub mod event;
pub mod manager;
pub mod roto_ctx;
pub mod roto_filter;
