//! The MCP layer: tool arguments and decisions, and read-only resources.

pub mod resources;
pub mod tools;
