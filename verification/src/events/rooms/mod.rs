//! Events about public rooms.

pub mod create_public;
pub mod public_message;
