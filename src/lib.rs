//! Client side of a line-delimited JSON-RPC tool protocol spoken with a child
//! process over its standard input and output, together with the helpers that
//! the surrounding tools use: environment sanitising, indentation-aware file
//! reading, server-entry validation and prompt locations.
pub mod client;
pub mod env;
pub mod features;
pub mod json;
pub mod mcp_cmd;
pub mod message;
pub mod pending;
pub mod prompts;
pub mod read_file;
pub mod text;
