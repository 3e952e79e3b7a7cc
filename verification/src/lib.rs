//! HTTP client connection pooling and header primitives, with machine-checked contracts.

pub mod body;
pub mod header;
pub mod pool;
pub mod text;
pub mod web;
