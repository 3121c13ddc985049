//! The failures an operation can end with.

use vstd::prelude::*;

use crate::path::SoftPath;

verus! {

/// The classes of filesystem failure. The library itself reads one of
/// them, `AlreadyExists`; the others are carried from the driver to the
/// caller as they are.
#[derive(Debug, Clone, Copy, PartialEq, Eq, Structural)]
pub enum IoKind {
    NotFound,
    PermissionDenied,
    AlreadyExists,
    InvalidInput,
    InvalidData,
    NotADirectory,
    IsADirectory,
    DirectoryNotEmpty,
    ReadOnlyFilesystem,
    StorageFull,
    TimedOut,
    Interrupted,
    Unsupported,
    UnexpectedEof,
    WriteZero,
    OutOfMemory,
    WouldBlock,
    BrokenPipe,
    Other,
}

/// A filesystem failure as its driver reported it.
#[derive(Debug, Clone, PartialEq, Eq)]
pub struct IoFailure {
    pub kind: IoKind,
    pub message: String,
}

/// Mathematical model of an [`IoFailure`].
pub struct IoFailureView {
    pub kind: IoKind,
    pub message: Seq<char>,
}

impl View for IoFailure {
    type V = IoFailureView;

    open spec fn view(&self) -> IoFailureView {
        IoFailureView { kind: self.kind, message: self.message@ }
    }
}

impl IoFailure {
    /// A copy with the same kind and message.
    pub fn duplicate(&self) -> (copy: IoFailure)
        ensures
            copy@ == self@,
    {
        IoFailure { kind: self.kind, message: self.message.clone() }
    }
}

/// Errors that can occur during path operations.
#[derive(Debug, Clone, PartialEq, Eq)]
pub enum SoftPathError {
    /// A filesystem call failed.
    Io(IoFailure),
    /// Home directory could not be determined.
    HomeDirNotFound,
    /// Path is invalid or malformed.
    InvalidPath(String),
    /// Path exceeds maximum depth.
    PathTooDeep(usize),
    /// Path contains directory traversal attempts.
    PathTraversal(String),
    /// Path contains a symlink cycle.
    SymlinkCycle(SoftPath),
    /// Path depth exceeded the allowed limit.
    PathDepthExceeded(usize),
    /// Path contains too many symlink levels.
    SymlinkDepthExceeded(usize),
    /// A symlink cycle was detected.
    SymlinkCycleDetected(String),
    /// Permission denied for the operation.
    PermissionDenied(String),
}

/// Mathematical model of a [`SoftPathError`].
pub enum ErrorView {
    Io(IoFailureView),
    HomeDirNotFound,
    InvalidPath(Seq<char>),
    PathTooDeep(usize),
    PathTraversal(Seq<char>),
    SymlinkCycle(Seq<char>),
    PathDepthExceeded(usize),
    SymlinkDepthExceeded(usize),
    SymlinkCycleDetected(Seq<char>),
    PermissionDenied(Seq<char>),
}

impl View for SoftPathError {
    type V = ErrorView;

    open spec fn view(&self) -> ErrorView {
        match *self {
            SoftPathError::Io(failure) => ErrorView::Io(failure@),
            SoftPathError::HomeDirNotFound => ErrorView::HomeDirNotFound,
            SoftPathError::InvalidPath(text) => ErrorView::InvalidPath(text@),
            SoftPathError::PathTooDeep(limit) => ErrorView::PathTooDeep(limit),
            SoftPathError::PathTraversal(text) => ErrorView::PathTraversal(text@),
            SoftPathError::SymlinkCycle(path) => ErrorView::SymlinkCycle(path@),
            SoftPathError::PathDepthExceeded(limit) => ErrorView::PathDepthExceeded(limit),
            SoftPathError::SymlinkDepthExceeded(limit) => ErrorView::SymlinkDepthExceeded(limit),
            SoftPathError::SymlinkCycleDetected(text) => ErrorView::SymlinkCycleDetected(text@),
            SoftPathError::PermissionDenied(text) => ErrorView::PermissionDenied(text@),
        }
    }
}

impl SoftPathError {
    /// A copy that denotes the same error.
    pub fn duplicate(&self) -> (copy: SoftPathError)
        ensures
            copy@ == self@,
    {
        match self {
            SoftPathError::Io(failure) => SoftPathError::Io(failure.duplicate()),
            SoftPathError::HomeDirNotFound => SoftPathError::HomeDirNotFound,
            SoftPathError::InvalidPath(text) => SoftPathError::InvalidPath(text.clone()),
            SoftPathError::PathTooDeep(limit) => SoftPathError::PathTooDeep(*limit),
            SoftPathError::PathTraversal(text) => SoftPathError::PathTraversal(text.clone()),
            SoftPathError::SymlinkCycle(path) => SoftPathError::SymlinkCycle(path.duplicate()),
            SoftPathError::PathDepthExceeded(limit) => SoftPathError::PathDepthExceeded(*limit),
            SoftPathError::SymlinkDepthExceeded(limit) => SoftPathError::SymlinkDepthExceeded(
                *limit,
            ),
            SoftPathError::SymlinkCycleDetected(text) => SoftPathError::SymlinkCycleDetected(
                text.clone(),
            ),
            SoftPathError::PermissionDenied(text) => SoftPathError::PermissionDenied(text.clone()),
        }
    }
}

/// What a verdict denotes: success, or the error in its mathematical form.
pub open spec fn verdict_view(verdict: Result<(), SoftPathError>) -> Result<(), ErrorView> {
    match verdict {
        Ok(_) => Ok(()),
        Err(error) => Err(error@),
    }
}

} // verus!
