//! Verified core of an MCP server for the Vikunja task manager.

pub mod text;
pub mod transfer;
pub mod dates;
pub mod error;
pub mod config;
pub mod metrics;
pub mod sandbox;
pub mod http;
pub mod vikunja;
pub mod mcp;
