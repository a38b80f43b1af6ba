//! A local file-sharing daemon's core: the share registry, virtual path
//! resolution, the daemon's call dispatch and the shutdown bookkeeping of its
//! mainloops.

pub mod schemas;
pub mod names;
pub mod registry;
pub mod resolve;
pub mod daemon;
pub mod laws;
pub mod shutdown_notifier;
pub mod utils;
pub mod logging;
pub mod supervisor;
