//! Fixed annual service contracts. Pool distributions are owned by finance.

pub mod account;
pub mod commands;
pub mod contract;
pub mod offer;
