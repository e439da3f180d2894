//! `orae`: an opinionated project generator for Rust API crates, and the
//! planning behind its HTTP-server macros.
//!
//! The library decides; its callers act.  It holds the dependency model and
//! the dependencies each project type starts from, the edits that write them
//! into `Cargo.toml` (through `toml_edit`), the templates and the layout they
//! scaffold, the text transforms used on generated files, and the plans that
//! the route, controller and main macros expand from.  Prompting, running
//! `cargo`, touching the file system and emitting tokens are left to the
//! caller.

pub mod text;
pub mod dependency;
pub mod manifest;
pub mod error;
pub mod cli;
pub mod cargo_ops;
pub mod scaffold;
pub mod template;
pub mod templates;
pub mod project;
pub mod create;
pub mod flow;
pub mod args;
pub mod route;
pub mod route_order;
pub mod responses;
pub mod config;
pub mod laws;
