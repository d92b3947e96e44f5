//! Coupon-draw campaigns: weighted draws with overall and per-day quotas,
//! one draw per user, campaign and calendar day, and one-shot redemption.

pub mod cache;
pub mod campaign;
pub mod chance;
pub mod clock;
pub mod engine;
pub mod ledger;
pub mod parse;
pub mod redeem;
pub mod service;
pub mod store;
pub mod text;
pub mod types;
