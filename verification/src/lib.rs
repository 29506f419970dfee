//! Session broker for Chrome DevTools MCP: the decisions behind the daemon, the
//! command line and the DevTools connection.
pub mod batch;
pub mod batch_laws;
pub mod cdp;
pub mod cdp_laws;
pub mod chrome;
pub mod cli;
pub mod cli_laws;
pub mod client;
pub mod client_laws;
pub mod config;
pub mod config_laws;
pub mod control;
pub mod control_laws;
pub mod daemon;
pub mod diagnostics;
pub mod help;
pub mod input;
pub mod json;
pub mod json_laws;
pub mod lock;
pub mod mcp;
pub mod message_laws;
pub mod native;
pub mod page_laws;
pub mod pages;
pub mod places;
pub mod queue;
pub mod refusal_laws;
pub mod route_laws;
pub mod router;
pub mod router_laws;
pub mod rpc;
pub mod runtime_laws;
pub mod session;
pub mod session_laws;
pub mod table;
pub mod text;
pub mod text_laws;
pub mod timing;
pub mod tool_laws;
pub mod uid_laws;
pub mod uids;
pub mod wire;
pub mod wire_laws;
