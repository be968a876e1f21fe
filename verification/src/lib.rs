//! Verified core of the DBX table-import, MongoDB shell and MCP helper logic.
pub mod text;
pub mod json;
pub mod table_import;
pub mod dialect;
pub mod mcp;
pub mod clickhouse;
pub mod mongo;
pub mod ordered;
pub mod elasticsearch;
