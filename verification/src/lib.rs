//! Verified core of a desktop LaTeX editor backend.
//!
//! The library resolves workspace targets, sanitizes language-model output,
//! classifies compiler subprocess outcomes, orders directory snapshots and
//! composes assistant prompts. I/O (filesystem, subprocess, HTTP) lives in
//! the surrounding application, which hands this library plain values.

pub mod assistant;
pub mod compiler;
pub mod prompts;
pub mod sanitize;
pub mod store;
pub mod textutil;
pub mod tree;
pub mod workspace;
