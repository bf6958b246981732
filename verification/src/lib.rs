//! Verified core of the GPS Trust MCP terminal client: the server registry,
//! credential handling, the parameter form, the application state machine and
//! the small parsers that sit between the network and the user interface.

pub mod app;
pub mod auth;
pub mod call;
pub mod encoding;
pub mod event;
pub mod json;
pub mod mcp;
pub mod text;
pub mod ui;
