//! Endpoint encryption and provider-opaque ciphertext records for native mail.

pub mod binding;
pub mod certificate;
pub mod cipher;
pub mod encoding;
pub mod hpke_suite;
pub mod statements;
