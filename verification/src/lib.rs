//! A registry of node records kept in key-addressed storage slots: the
//! record format, the deterministic slot address of each node identity, and
//! the rules under which a record is created, patched and removed.

pub mod account;
pub mod codec;
pub mod consts;
pub mod entrypoint;
pub mod error;
pub mod instructions;
pub mod processors;
pub mod pubkey;
pub mod state;
