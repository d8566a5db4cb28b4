//! IPv4 configuration of network adapters: listing the adapters of a host,
//! reading the address, mask, gateway and DNS servers of one of them, and
//! applying new settings to it.
//!
//! The library runs no command itself. It says which command is due, takes
//! the answer as a [`gateway::GatewayResult`], and says what follows:
//!
//! - [`adapters`] reads the adapter listing from the answer to one query.
//! - [`read`] reads a configuration through up to three queries; only the
//!   first of them can fail the reading.
//! - [`apply`] applies a configuration through up to three commands, after
//!   [`validate`] has accepted it; a command that fails ends the sequence,
//!   and nothing is undone.
//!
//! Below them, [`commands`] holds the text of every command, in which an
//! adapter's name is always a quoted literal, [`output`] parses what the
//! commands print, [`json`] reads JSON through `serde_json`, [`subnet`]
//! holds the dotted-quad notation and the masks of prefix lengths, and
//! [`text`] the handling of characters.
//!
//! Every function states what it returns over the views of its arguments,
//! and the laws that relate the functions are proof functions beside them.

pub mod adapters;
pub mod apply;
pub mod commands;
pub mod config;
pub mod gateway;
pub mod json;
pub mod output;
pub mod read;
pub mod subnet;
pub mod text;
pub mod validate;
