//! The names that nearly every caller needs.

pub use crate::error::SoftPathError;
pub use crate::path_ext::PathExt;
