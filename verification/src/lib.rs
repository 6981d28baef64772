//! Cryptographic session and secure local cache for an encrypted secrets vault.
//!
//! The crate derives keys from a master password, reads and writes the vault's
//! authenticated ciphertext format, decides when cached credentials and vault
//! snapshots are stale, and looks secrets up by name. Every function carries a
//! contract that Verus proves, and `laws` states what holds when several of
//! them are used together.
//!
//! What is not proved is what other libraries do. The calls into them are
//! confined to a few small functions whose contracts are stated and trusted:
//! the cryptographic and text primitives in `primitives`, and the reading of
//! clock and dates in `clock`. `records` names two types of other libraries
//! that vault snapshots carry through unread.
//!
//! Nothing here reads or writes files, asks the user or talks to the network.
//! Where an operation needs such work in the middle, it is written as a step
//! function (`auth::get_token`, `sync::load_data`): the caller does the work
//! that a step asks for and reports the outcome to the next step.

pub mod auth;
pub mod clock;
pub mod config;
pub mod crypt;
pub mod encoding;
pub mod env_vars;
pub mod error;
pub mod format;
pub mod laws;
pub mod lookup;
pub mod models;
pub mod primitives;
pub mod records;
pub mod service;
pub mod store;
pub mod sync;
