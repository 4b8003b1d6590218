//! In-memory model of a social-media timeline: a keyed store of status
//! records, an append-only feed order, pure interaction toggles, and the
//! merge step that folds a freshly fetched page into the store.
//!
//! Fetching and decoding the page itself is left to the surrounding
//! application; the library takes the outcome of a fetch as a plain value
//! and performs every state change under a verified contract.

pub mod status;
pub mod store;
pub mod feed;
