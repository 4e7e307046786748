//! Marketplace: paid contract usage and licensing.

pub mod license;
pub mod stripe;
pub mod usdc_intents;
pub mod licensing;
