//! Path-safety validation in front of ordinary filesystem operations.
//!
//! The library decides; it never touches the filesystem itself. A path is
//! checked for directory traversal and for symbolic-link cycles, and every
//! operation is a small state machine: it hands its driver one filesystem
//! request at a time and takes the answer back, so that the order of
//! validation and mutation is fixed here and holds for every driver.
//!
//! - [`config`]: the two limits, and the set-once slot that holds them.
//! - [`grammar`], [`path`]: how a text is read as a path.
//! - [`traversal`], [`symlinks`]: the two checks.
//! - [`protocol`], [`operations`]: the words between an operation and its
//!   driver, and the operations themselves.
//! - [`soundness`]: what holds of every step of an operation.
//! - [`runs`]: whole runs over a model of the filesystem: what a creation
//!   and a write leave behind.
//! - [`home`], [`path_ext`]: the operation set on paths and on text.

pub mod config;
pub mod environment;
pub mod error;
pub mod grammar;
pub mod home;
pub mod operations;
pub mod path;
pub mod path_ext;
pub mod prelude;
pub mod protocol;
pub mod runs;
pub mod soundness;
pub mod symlinks;
pub mod traversal;

pub use config::{get_config, set_config, Config, ConfigSlot};
pub use environment::Environment;
pub use error::SoftPathError;
pub use path::SoftPath;
pub use path_ext::PathExt;
