//! Development-server orchestration for a small static-site generator.
//!
//! The heart of the crate is the watch/serve orchestrator: a cancellation
//! signal fanned out to every concurrent unit, a debounce stage that
//! coalesces bursts of filesystem events into single rebuild triggers, a
//! supervisor for the external CSS-compiler sidecar process, a lifecycle
//! model for the HTTP server, and the build pipeline rules (slugs, output
//! paths, scaffold layout) that rebuilds follow.

pub mod cancel;
pub mod cli;
pub mod config;
pub mod engine;
pub mod models;
pub mod orchestrator;
pub mod parser;
pub mod paths;
pub mod render;
pub mod scaffold;
pub mod server;
pub mod sidecar;
pub mod text;
pub mod utils;
pub mod watch;
