//! Category management for a torrent index backend.
//!
//! The library holds the verified core of the category resource: the model of
//! the durable category/torrent tables, the authorization guard that guards
//! mutations, the classification of storage failures, and the three
//! operations (list, create, delete) with their contracts. The surrounding
//! HTTP transport and the real database driver live outside the library and
//! hand it plain values.

pub mod auth;
pub mod category;
pub mod error;
pub mod store;
