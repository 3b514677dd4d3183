//! Finding a Python interpreter and describing it to Cargo.
//!
//! The crate reads what an interpreter prints about itself, decides which
//! interpreter a build should use and composes the lines a build script hands
//! to Cargo. Starting processes, reading the environment and printing are left
//! to the caller.

pub mod cargo;
pub mod config;
pub mod link;
pub mod pattern;
pub mod script;
pub mod search;
pub mod sysconfig;
pub mod text;
pub mod version;
