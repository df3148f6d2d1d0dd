//! A staking ledger: accounts stake a fungible asset into a shared pool,
//! accrue time-based rewards, and later unstake and withdraw principal or
//! harvest rewards through an external transfer whose outcome is reconciled
//! afterwards.
pub mod config;
pub mod account;
pub mod contract;
pub mod saga;
pub mod laws;

