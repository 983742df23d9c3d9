//! Phoenix channels that share their state over all connections.

pub mod watch_channel;
