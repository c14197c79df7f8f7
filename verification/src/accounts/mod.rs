//! Product account ownership and enrollment. No database or service policy evaluation.

pub mod account;
pub mod control;
pub mod keys;
pub mod statements;
