//! Data plane of a chat whose source of truth is an append-only ledger.
//!
//! - [`types`]: room names and messages, valid by construction.
//! - [`events`]: the compressed wire format of the events of a transaction;
//!   [`plain_events`]: the plain format.
//! - [`validator`]: admission of events to the ledger, first create wins.
//! - [`database`]: the read model with the uniqueness rules of its schema.
//! - [`client`]: the projection of blocks onto the read model, exactly once.
//! - [`share_link`], [`role`], [`utils`], [`emojis`], [`tui`]: links to spaces,
//!   roles, and what the front end shows.
//! - [`text`], [`compress`], [`ledger`]: text helpers, zstd, and the plain
//!   values that stand for hashes and keys.

pub mod text;
pub mod types;
pub mod compress;
pub mod events;
pub mod plain_events;
pub mod ledger;
pub mod database;
pub mod client;
pub mod validator;
pub mod role;
pub mod emojis;
pub mod utils;
pub mod share_link;
pub mod tui;
