//! Use cases: what a command does to what is stored, decided from values alone.

pub mod billing;
pub mod book;
pub mod bookkeeping;
pub mod confirmations;
pub mod consent;
pub mod correspondence;
pub mod desk;
pub mod distribution;
pub mod engine;
pub mod enrollment;
pub mod errors;
pub mod histories;
pub mod identity;
pub mod operations;
pub mod ownership;
pub mod publication;
pub mod relationships;
pub mod request;
pub mod reuse;
pub mod statements;
pub mod store;
