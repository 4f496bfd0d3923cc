//! Verified core of dispatch: the chyron ticker's state and drawing, the
//! command line's one-shot actions, and the summary printed after a sync.
pub mod chyron;
pub mod cli;
pub mod feeds;
pub mod order;
pub mod outside;
pub mod render;
pub mod sync;
pub mod text;
pub mod ticker;
