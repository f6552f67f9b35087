//! The records that the get-log-page command returns.

pub mod err;
pub mod fw_slot;
pub mod smart;
