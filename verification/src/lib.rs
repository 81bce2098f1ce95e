//! Decisions of a filtering daemon: the subscription registry, the snapshot
//! cache, and the line protocol spoken with clients.

pub mod decimal;
pub mod engine;
pub mod lists;
pub mod protocol;
pub mod registry;
pub mod session;
pub mod setup;
pub mod text;
