//! Constrained values shared by the protocol layers.

pub mod amounts;
pub mod calendar;
pub mod declarations;
pub mod ids;
pub mod references;
pub mod schedule;
pub mod versions;
