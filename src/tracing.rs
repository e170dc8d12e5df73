//! `tracing`-related types.

pub mod config;
