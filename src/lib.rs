//! Incremental reconstruction of reply/quote threads from a stream of
//! post-creation events.
pub mod builder;
pub mod event;
pub mod graph;
pub mod identity;
pub mod uri;
