//! A registry of wallets: their classification by role, their binding to
//! deployment orders, liveness reports and the deadlines that expire a binding.
pub mod wallet;
pub mod classify;
pub mod registry;
pub mod timeout;
mod clock;
