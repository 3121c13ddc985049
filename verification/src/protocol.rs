//! The words that an operation and its driver exchange.
//!
//! An operation never touches the filesystem. It hands its driver an
//! [`Action`], the driver performs it and hands back an [`Event`], until the
//! action is [`Action::Finish`].

use vstd::prelude::*;
use vstd::string::StringExecFns;

use crate::error::{ErrorView, IoFailure, IoFailureView, IoKind, SoftPathError};
use crate::path::SoftPath;

verus! {

/// What an operation yields when it succeeds.
#[derive(Debug, Clone, PartialEq, Eq)]
pub enum Value {
    /// Nothing: the operation was carried out.
    Unit,
    /// The answer to a yes-or-no query.
    Flag(bool),
    /// The content of a file.
    Text(String),
    /// A path.
    Path(SoftPath),
    /// A name, where the path has one.
    Name(Option<String>),
}

/// Mathematical model of a [`Value`].
pub enum ValueView {
    Unit,
    Flag(bool),
    Text(Seq<char>),
    Path(Seq<char>),
    Name(Option<Seq<char>>),
}

impl View for Value {
    type V = ValueView;

    open spec fn view(&self) -> ValueView {
        match *self {
            Value::Unit => ValueView::Unit,
            Value::Flag(flag) => ValueView::Flag(flag),
            Value::Text(text) => ValueView::Text(text@),
            Value::Path(path) => ValueView::Path(path@),
            Value::Name(name) => ValueView::Name(
                match name {
                    Some(text) => Some(text@),
                    None => None,
                },
            ),
        }
    }
}

/// How an operation ends.
pub type Outcome = Result<Value, SoftPathError>;

/// Mathematical model of an [`Outcome`].
pub type OutcomeView = Result<ValueView, ErrorView>;

/// The model of an outcome.
pub open spec fn outcome_view(outcome: Outcome) -> OutcomeView {
    match outcome {
        Ok(value) => Ok(value@),
        Err(error) => Err(error@),
    }
}

/// What the driver is asked to do next.
#[derive(Debug, PartialEq, Eq)]
pub enum Action {
    /// Is the path itself a symbolic link? Answer: `Flag`, false on any failure.
    IsSymlink(SoftPath),
    /// Read where the symbolic link points. Answer: `Path`.
    ReadLink(SoftPath),
    /// Does the path exist? Answer: `Flag`.
    Exists(SoftPath),
    /// Is the path a regular file? Answer: `Flag`.
    IsFile(SoftPath),
    /// Is the path a directory? Answer: `Flag`.
    IsDir(SoftPath),
    /// Create the directory and every missing ancestor. Answer: `Done`.
    CreateDirAll(SoftPath),
    /// Create an empty file, failing where the path exists. Answer: `Done`.
    CreateNew(SoftPath),
    /// Create or truncate the file, write the text, and force it to
    /// storage. Answer: `Done`.
    WriteSynced(SoftPath, String),
    /// Rename the first path onto the second. Answer: `Done`.
    Rename(SoftPath, SoftPath),
    /// Copy the first path's content to the second. Answer: `Done`.
    Copy(SoftPath, SoftPath),
    /// Remove the directory with all it holds. Answer: `Done`.
    RemoveDirAll(SoftPath),
    /// Remove the file. Answer: `Done`.
    RemoveFile(SoftPath),
    /// Read the file as text. Answer: `Text`.
    ReadToString(SoftPath),
    /// The file's length in bytes. Answer: `Number`.
    FileLen(SoftPath),
    /// Does the directory hold no entry? Answer: `Flag`.
    DirIsEmpty(SoftPath),
    /// The attribute bits that the filesystem reports. Answer: `Number`.
    Attributes(SoftPath),
    /// The canonical, absolute form of the path. Answer: `Path`.
    Canonicalize(SoftPath),
    /// Nothing more: the operation has ended with this outcome.
    Finish(Outcome),
}

/// Mathematical model of an [`Action`].
pub enum ActionView {
    IsSymlink(Seq<char>),
    ReadLink(Seq<char>),
    Exists(Seq<char>),
    IsFile(Seq<char>),
    IsDir(Seq<char>),
    CreateDirAll(Seq<char>),
    CreateNew(Seq<char>),
    WriteSynced(Seq<char>, Seq<char>),
    Rename(Seq<char>, Seq<char>),
    Copy(Seq<char>, Seq<char>),
    RemoveDirAll(Seq<char>),
    RemoveFile(Seq<char>),
    ReadToString(Seq<char>),
    FileLen(Seq<char>),
    DirIsEmpty(Seq<char>),
    Attributes(Seq<char>),
    Canonicalize(Seq<char>),
    Finish(OutcomeView),
}

impl View for Action {
    type V = ActionView;

    open spec fn view(&self) -> ActionView {
        match *self {
            Action::IsSymlink(path) => ActionView::IsSymlink(path@),
            Action::ReadLink(path) => ActionView::ReadLink(path@),
            Action::Exists(path) => ActionView::Exists(path@),
            Action::IsFile(path) => ActionView::IsFile(path@),
            Action::IsDir(path) => ActionView::IsDir(path@),
            Action::CreateDirAll(path) => ActionView::CreateDirAll(path@),
            Action::CreateNew(path) => ActionView::CreateNew(path@),
            Action::WriteSynced(path, text) => ActionView::WriteSynced(path@, text@),
            Action::Rename(from, to) => ActionView::Rename(from@, to@),
            Action::Copy(from, to) => ActionView::Copy(from@, to@),
            Action::RemoveDirAll(path) => ActionView::RemoveDirAll(path@),
            Action::RemoveFile(path) => ActionView::RemoveFile(path@),
            Action::ReadToString(path) => ActionView::ReadToString(path@),
            Action::FileLen(path) => ActionView::FileLen(path@),
            Action::DirIsEmpty(path) => ActionView::DirIsEmpty(path@),
            Action::Attributes(path) => ActionView::Attributes(path@),
            Action::Canonicalize(path) => ActionView::Canonicalize(path@),
            Action::Finish(outcome) => ActionView::Finish(outcome_view(outcome)),
        }
    }
}

/// What the driver reports back.
#[derive(Debug, Clone, PartialEq, Eq)]
pub enum Event {
    /// The first event of every operation: nothing was asked yet.
    Start,
    /// The answer to a yes-or-no question.
    Flag(bool),
    /// A path that the filesystem gave.
    Path(SoftPath),
    /// The action was carried out.
    Done,
    /// The text that was read.
    Text(String),
    /// The number that was asked for.
    Number(u64),
    /// The action failed.
    Failed(IoFailure),
}

/// Mathematical model of an [`Event`].
pub enum EventView {
    Start,
    Flag(bool),
    Path(Seq<char>),
    Done,
    Text(Seq<char>),
    Number(u64),
    Failed(IoFailureView),
}

impl View for Event {
    type V = EventView;

    open spec fn view(&self) -> EventView {
        match *self {
            Event::Start => EventView::Start,
            Event::Flag(flag) => EventView::Flag(flag),
            Event::Path(path) => EventView::Path(path@),
            Event::Done => EventView::Done,
            Event::Text(text) => EventView::Text(text@),
            Event::Number(number) => EventView::Number(number),
            Event::Failed(failure) => EventView::Failed(failure@),
        }
    }
}

/// The failure that answers an event which the operation did not ask for.
pub open spec fn unexpected_event() -> ErrorView {
    ErrorView::Io(
        IoFailureView {
            kind: IoKind::InvalidInput,
            message: "unexpected reply from the driver"@,
        },
    )
}

/// The error for an event that was not asked for.
pub fn unexpected() -> (error: SoftPathError)
    ensures
        error@ == unexpected_event(),
{
    SoftPathError::Io(
        IoFailure {
            kind: IoKind::InvalidInput,
            message: String::from_str("unexpected reply from the driver"),
        },
    )
}

} // verus!
