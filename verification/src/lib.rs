//! Core logic of the contract registry backend: database resilience,
//! signature verification, webhook and license token checks, payment
//! scanning and the smaller policy decisions around them.

pub mod db_resilience;
pub mod text;
pub mod clock;
pub mod error;
pub mod crypto;
pub mod decimal;
pub mod ordering;
pub mod table;
pub mod random;
pub mod auth;
pub mod access;
pub mod auth_handlers;
pub mod batch_verify;
pub mod migrations;
pub mod state_monitor;
pub mod cache_config;
pub mod alerting;
pub mod feature_flags;
pub mod analytics;
pub mod search;
pub mod partitions;
pub mod archival;
pub mod formal_verification;
pub mod usdc_scanner;
pub mod signature_verification;
pub mod marketplace;
