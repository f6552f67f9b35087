//! The records that the identify command returns.

pub mod ctrl;
pub mod nmsp;
