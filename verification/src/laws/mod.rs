//! What the engine is for, told from outside.
//!
//! Each file takes one part of the engine and states what must hold of its results:
//! what reaches a provider, what becomes of a reply, what a tool gives back. The
//! statements speak of what goes in and what comes out, in the words of the formats
//! themselves, and not of how the part is put together.
pub mod agent;
pub mod anthropic;
pub mod cli;
pub mod gemini;
pub mod git;
pub mod gui;
pub mod json;
pub mod mcp;
pub mod openai;
pub mod paths;
pub mod permission;
pub mod provider;
pub mod search;
pub mod session;
pub mod settings;
pub mod skills;
pub mod text;
pub mod tools;
pub mod worker;
