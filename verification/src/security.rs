//! Security utilities: network sandboxing and URL validation.

pub mod network;
