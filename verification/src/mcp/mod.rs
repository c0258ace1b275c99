//! Shared MCP host.
//!
//! ADE is one MCP *client*: each configured server is spawned/connected **once**
//! and its tools are folded into the tool registry, namespaced
//! `mcp__<server>__<tool>`. Every agent shares the same servers.
//!
//! Two transports:
//! - **stdio**: newline-delimited JSON-RPC 2.0 over a child process.
//! - **sse**: the HTTP+SSE transport. A worker opens the SSE stream, learns the
//!   POST endpoint from the `endpoint` event, and correlates JSON-RPC responses by
//!   id.
pub mod host;
pub mod rpc;
pub mod worker;
