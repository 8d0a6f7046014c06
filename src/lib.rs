//! Safe-side logic for servlets that run inside a module server.
//!
//! The host hands each request to a servlet as an opaque handle and exposes
//! a small C interface on it. This library holds what can be decided without
//! touching the handle: which Rust strings can cross into C, how text that
//! comes back from C becomes a `String`, and what each servlet answers.
pub mod cstr;
pub mod servlet;
