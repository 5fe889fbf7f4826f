//! Dispatches network-link state changes reported on the system bus to
//! operator hook scripts kept in per-state directories.
pub mod text;
pub mod state;
pub mod event;
pub mod resolver;
pub mod environment;
pub mod launcher;
pub mod dispatcher;
