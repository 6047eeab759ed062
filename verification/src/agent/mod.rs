//! How one agent is called, thinks, and acts.

pub mod a2a;
pub mod a2a_laws;
pub mod basic;
pub mod loop_laws;
pub mod loops;
pub mod mcp;
pub mod model;
pub mod prompted_tools;
pub mod provider;
pub mod repl;
pub mod talk_laws;
pub mod tool;
pub mod wire;
pub mod wire_laws;
