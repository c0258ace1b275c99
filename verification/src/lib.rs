//! Core of ADE, an agent development environment.
use vstd::prelude::*;

pub mod agent;
pub mod approver;
pub mod cli;
pub mod config;
pub mod error;
pub mod git;
pub mod gui;
pub mod json;
pub mod keystore;
pub mod laws;
pub mod mcp;
pub mod paths;
pub mod permission;
pub mod provider;
pub mod session;
pub mod skills;
pub mod terminal;
pub mod text;
pub mod tools;

verus! {

} // verus!
