//! Verified mail-protocol domain logic.

pub mod accounts;
pub mod adapters;
pub mod application;
pub mod billing;
pub mod bytes;
pub mod capabilities;
pub mod client;
pub mod consent;
pub mod content;
pub mod correspondence;
pub mod crypto;
pub mod custody;
pub mod finance;
pub mod json;
pub mod ledger;
pub mod lines;
pub mod maps;
pub mod primitives;
pub mod protocol;
