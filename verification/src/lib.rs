//! Atombot: the decision logic of a small tool-calling agent, with its
//! safety guards (network sandboxing, path sandboxing, command guards)
//! and the text processing of its tools.

pub mod agent;
pub mod bus;
pub mod pattern;
pub mod provider;
pub mod security;
pub mod text;
