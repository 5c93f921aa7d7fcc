//! Verified core of a mail MCP server: configuration, validation, message
//! identifiers, search planning and message composition.
pub mod text;
pub mod errors;
pub mod config;
pub mod smtp;
pub mod validate;
pub mod ids;
pub mod encode;
pub mod env;
pub mod help;
pub mod registry;
pub mod tools;
pub mod search;
pub mod compose;
pub mod graph;
pub mod ops;
pub mod mail;
pub mod transport;
