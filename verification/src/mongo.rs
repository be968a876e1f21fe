//! The MongoDB shell commands that DBX accepts through MCP.
pub mod scan;
pub mod values;
pub mod scale;
pub mod command;
pub mod parser;
