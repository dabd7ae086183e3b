//! Validated text newtypes.

pub mod room_name;
pub mod room_message;
