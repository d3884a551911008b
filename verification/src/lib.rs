//! Environment resolution and compilation-database synthesis for a
//! Basilisk (qcc) toolchain adapter.
//!
//! The library holds the verified logic of the adapter: deciding where
//! the toolchain lives from a snapshot of the environment, synthesizing
//! a compilation database for a workspace tree, and composing the
//! language-server launch specification and configuration payloads.
//! All file-system and process I/O stays outside; callers hand in plain
//! values (snapshots of environment variables, lookup results, walked
//! file lists) and receive plain values back.

pub mod db;
pub mod fsenv;
pub mod json;
pub mod locator;
pub mod session;
pub mod text;
