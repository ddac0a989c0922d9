//! Accounts, bearer tokens and versioned profiles behind one gateway.

pub mod auth;
pub mod common;
pub mod loadgen;
pub mod profile;
