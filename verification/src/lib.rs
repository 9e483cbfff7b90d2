//! The logic of `cargo soteria`, the cargo subcommand that installs the
//! `soteria-rust` symbolic-execution toolchain and runs a crate's symbolic
//! tests with it.

pub mod archive;
pub mod cleanup;
pub mod cli;
pub mod common;
pub mod decimal;
pub mod install;
pub mod json;
pub mod nextest;
pub mod release;
pub mod runner_common;
pub mod setup;
pub mod setup_laws;
pub mod size;
pub mod staging;
pub mod targets;
pub mod text;
pub mod unsetup;
pub mod version;
