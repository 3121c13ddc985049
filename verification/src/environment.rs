//! What validation depends on besides the path itself, and how a rejected
//! path is shown.

use vstd::prelude::*;
use vstd::string::StringExecFns;

use crate::config::Config;
use crate::error::{IoFailure, IoFailureView};
use crate::grammar::{file_name, Separators};
use crate::path::SoftPath;

verus! {

/// How much of a rejected path an error message shows.
#[derive(Debug, Clone, Copy, PartialEq, Eq, Structural)]
pub enum ErrorDetail {
    /// The whole path, for development.
    Full,
    /// The file name only, so that no directory structure leaks.
    NameOnly,
}

/// How a hidden file is told from a visible one.
#[derive(Debug, Clone, Copy, PartialEq, Eq, Structural)]
pub enum HiddenRule {
    /// A file name that begins with `.` is hidden.
    LeadingDot,
    /// The filesystem reports a hidden attribute bit.
    AttributeBit,
}

/// What validation depends on besides the path itself.
#[derive(Debug, PartialEq, Eq)]
pub struct Environment {
    /// The limits in force.
    pub config: Config,
    /// The process's working directory, or the failure to read it.
    pub cwd: Result<SoftPath, IoFailure>,
    /// How much of a path error messages show.
    pub detail: ErrorDetail,
    /// How hidden files are recognised.
    pub hidden: HiddenRule,
    /// Which characters separate the segments of the paths that come in.
    pub separators: Separators,
}

/// Mathematical model of an [`Environment`].
pub struct EnvironmentView {
    pub config: Config,
    pub cwd: Result<Seq<char>, IoFailureView>,
    pub detail: ErrorDetail,
    pub hidden: HiddenRule,
    pub separators: Separators,
}

impl View for Environment {
    type V = EnvironmentView;

    open spec fn view(&self) -> EnvironmentView {
        EnvironmentView {
            config: self.config,
            cwd: match self.cwd {
                Ok(path) => Ok(path@),
                Err(failure) => Err(failure@),
            },
            detail: self.detail,
            hidden: self.hidden,
            separators: self.separators,
        }
    }
}

impl Environment {
    /// A copy that denotes the same environment.
    pub fn duplicate(&self) -> (copy: Environment)
        ensures
            copy@ == self@,
    {
        Environment {
            config: self.config,
            cwd: match &self.cwd {
                Ok(path) => Ok(path.duplicate()),
                Err(failure) => Err(failure.duplicate()),
            },
            detail: self.detail,
            hidden: self.hidden,
            separators: self.separators,
        }
    }
}

/// What an error message shows of a path.
pub open spec fn sanitized(path: Seq<char>, detail: ErrorDetail) -> Seq<char> {
    match detail {
        ErrorDetail::Full => path,
        ErrorDetail::NameOnly => match file_name(path) {
            Some(name) => "<path>/"@ + name,
            None => "<path>"@,
        },
    }
}

/// Renders a path for an error message.
pub fn sanitize_path_for_error(path: &SoftPath, detail: ErrorDetail) -> (text: String)
    ensures
        text@ == sanitized(path@, detail),
{
    match detail {
        ErrorDetail::Full => path.text.clone(),
        ErrorDetail::NameOnly => match path.name() {
            Some(name) => String::from_str("<path>/").concat(name.as_str()),
            None => String::from_str("<path>"),
        },
    }
}

} // verus!
