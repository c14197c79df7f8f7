//! Request-specific payment evidence and the separate company-owned member program.

pub mod annual;
pub mod bank;
pub mod changes;
pub mod closing;
pub mod commands;
pub mod distribution;
pub mod execution;
pub mod funding;
pub mod identifiers;
pub mod lot;
pub mod membership;
pub mod payable;
pub mod payments;
pub mod program;
pub mod quarter;
pub mod records;
pub mod request;
pub mod scope;
pub mod statements;
pub mod terms;
