//! One-way mirroring of files and directories to a remote host: the rules
//! that decide what is copied, what is deleted and in which order the steps
//! of a transfer follow each other.
//!
//! Nothing here touches a file or the network. Each activity that does is
//! laid out as a sequence of steps: a function takes what came of the last
//! action and hands out the next one, and whoever drives it does the work in
//! between.

pub mod converge;
pub mod diff;
pub mod error;
pub mod flags;
pub mod mirror;
pub mod path;
pub mod service;
pub mod session;
pub mod transfer;
pub mod watch;

pub use crate::error::Error;
pub use crate::mirror::Mirror;
pub use crate::watch::Watcher;
