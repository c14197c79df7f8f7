//! Explicit edge adapters for SMTP downgrade and future federation.

pub mod dmarc;
pub mod domain;
pub mod federation;
pub mod smtp;
