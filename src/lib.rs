//! Account-update handlers for an on-chain program: a wrapping counter kept in
//! an account's first four bytes, and a store for records of three
//! length-prefixed byte fields.

pub mod codec;
pub mod record;
pub mod handler;
pub mod laws;
