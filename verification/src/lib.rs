//! Catalog core of a desktop software store: localized component metadata,
//! weighted search over loaded collections, the registry of package backends
//! and the state machine that ties them together.

pub mod text;
pub mod digits;
pub mod order;
pub mod ranking;
pub mod catalog;
pub mod search;
pub mod registry;
pub mod state;
