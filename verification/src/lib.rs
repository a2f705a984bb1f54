//! Core of a self-hosted continuous-integration control plane.
//!
//! The library models the persistent state machine that ties the system
//! together: repos, remotes, commits, jobs and runs kept in a serialized
//! store; webhook authentication; push-event processing; notifier
//! configuration; and the status view.  Network and file I/O live outside
//! the library and hand it plain values.  All timestamps are integer
//! milliseconds since the Unix epoch.

pub mod auth;
pub mod data;
pub mod event;
pub mod json;
pub mod notifier;
pub mod status;
pub mod steps;
pub mod store;
pub mod strutil;
