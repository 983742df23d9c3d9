//! The core of the Tidewave server: the logic between browsers, agents and the file system.

pub mod acp;
pub mod acp_channel;
pub mod acp_proxy;
pub mod acp_relay;
pub mod acp_server;
pub mod acp_session;
pub mod archive;
pub mod channel_result;
pub mod channels;
pub mod command;
pub mod config;
pub mod http_handlers;
pub mod json;
pub mod jsonrpc;
pub mod mcp;
pub mod mcp_channel;
pub mod mcp_remote;
pub mod paths;
pub mod phoenix;
pub mod registry;
pub mod server;
pub mod starts;
pub mod terminal;
pub mod text;
pub mod tls;
pub mod urls;
pub mod watch;
pub mod watch_channel;
pub mod watching;
pub mod ws;
