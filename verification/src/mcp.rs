//! The logic behind DBX's MCP tools: picking connections, gating commands and
//! formatting answers.
pub mod connections;
pub mod selection;
pub mod markdown;
pub mod answers;
pub mod results;
pub mod gates;
pub mod web;
pub mod manage;
pub mod requests;
pub mod paths;
pub mod web_api;
