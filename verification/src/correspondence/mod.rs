//! Deterministic native correspondence rules. No storage, clock, transport or keys.

pub mod document;
pub mod encoding;
pub mod image;
pub mod policy;
pub mod selection;
pub mod shape;
pub mod statements;
