//! The operation set, on paths and on text.
//!
//! Text is first turned into a path, and validated as such. What follows
//! is the same for both: one implementation of every operation.

use vstd::prelude::*;
use vstd::string::StringExecFns;

use crate::environment::{Environment, EnvironmentView};
use crate::home::{asks_for_home, resolve_text, resolved_view, text_resolution, HomeView};
use crate::operations::{fresh_operation, rejected_operation, OpKind, Operation, OperationView};
use crate::grammar::slashed;
use crate::path::SoftPath;

verus! {

/// The operation `kind` on a subject that came as text.
pub open spec fn text_operation(
    kind: OpKind,
    text: Seq<char>,
    home: HomeView,
    dest: Seq<char>,
    contents: Seq<char>,
    env: EnvironmentView,
) -> OperationView {
    match text_resolution(text, home, env) {
        Ok(subject) => fresh_operation(
            kind,
            subject,
            slashed(dest, env.separators),
            contents,
            true,
            env,
        ),
        Err(error) => rejected_operation(kind, error, env),
    }
}

/// `op` is the operation `kind` on `text`, for the home directory that the
/// platform reported.
pub open spec fn is_text_operation(
    op: OperationView,
    kind: OpKind,
    text: Seq<char>,
    dest: Seq<char>,
    contents: Seq<char>,
    env: EnvironmentView,
) -> bool {
    exists|home: HomeView| op == #[trigger] text_operation(kind, text, home, dest, contents, env)
}

/// The operation `kind` on the path that `text` stands for.
pub fn operation_on_text(
    kind: OpKind,
    text: &str,
    dest: SoftPath,
    contents: String,
    env: &Environment,
) -> (op: Operation)
    ensures
        is_text_operation(op@, kind, text@, dest@, contents@, env@),
{
    let resolved = resolve_text(text, env);
    let ghost home = choose|home: HomeView|
        resolved_view(resolved) == #[trigger] text_resolution(text@, home, env@);
    let op = match resolved {
        Ok(subject) => Operation::new(
            kind,
            subject,
            dest.slashed(env.separators),
            contents,
            true,
            env.duplicate(),
        ),
        Err(error) => Operation::rejected(kind, error, env.duplicate()),
    };
    assert(op@ == text_operation(kind, text@, home, dest@, contents@, env@));
    op
}

/// Where the resolution of a text does not ask for the home directory, the
/// operation on it is the same whatever the home directory is.
pub proof fn lemma_home_is_asked_last(
    kind: OpKind,
    text: Seq<char>,
    one: HomeView,
    other: HomeView,
    dest: Seq<char>,
    contents: Seq<char>,
    env: EnvironmentView,
)
    requires
        !asks_for_home(text, env),
    ensures
        text_operation(kind, text, one, dest, contents, env) == text_operation(
            kind,
            text,
            other,
            dest,
            contents,
            env,
        ),
{
}

/// The operations on a path-like value. Each call yields the operation
/// before its first step: the caller drives it with
/// [`Operation::step`], performing each action and handing back what came
/// of it, until the operation finishes.
pub trait PathExt {
    /// Turns the value into a path. Text is resolved and validated; a path
    /// is taken as it is.
    fn into_path(self, env: &Environment) -> Operation;

    /// Whether the path exists.
    fn try_exists(&self, env: &Environment) -> Operation;

    /// Whether the path points to a regular file.
    fn is_file(&self, env: &Environment) -> Operation;

    /// Whether the path points to a directory.
    fn is_dir(&self, env: &Environment) -> Operation;

    /// Creates a new, empty file, with its missing parent directories; fails where the file exists.
    fn create_file(&self, env: &Environment) -> Operation;

    /// Creates the directory and every missing ancestor.
    fn create_dir_all(&self, env: &Environment) -> Operation;

    /// Removes the file, or the directory with all it holds.
    fn remove(&self, env: &Environment) -> Operation;

    /// Reads the whole file as text.
    fn read_to_string(&self, env: &Environment) -> Operation;

    /// Whether the path is a file of length zero or a directory without entries.
    fn is_empty(&self, env: &Environment) -> Operation;

    /// Whether the path is hidden, by the rule that the environment names.
    fn is_hidden(&self, env: &Environment) -> Operation;

    /// The name of the file, if the path ends in one.
    fn file_name(&self, env: &Environment) -> Operation;

    /// The extension of the file name, if it has one.
    fn extension(&self, env: &Environment) -> Operation;

    /// The name of the parent directory, if there is one.
    fn parent_name(&self, env: &Environment) -> Operation;

    /// The canonical, absolute form of the path.
    fn absolute(&self, env: &Environment) -> Operation;

    /// Writes the text to the file, through a temporary sibling that is
    /// renamed onto it, after creating the missing parent directories.
    fn write_string(&self, contents: &str, env: &Environment) -> Operation;

    /// Copies the file to `dest`.
    fn copy_to(&self, dest: &SoftPath, env: &Environment) -> Operation;

    /// Moves the file or directory to `dest`.
    fn move_to(&self, dest: &SoftPath, env: &Environment) -> Operation;
}

/// The operation `kind` on a path: the path and the second path are read
/// by the environment's rule for separators.
pub open spec fn path_operation(
    kind: OpKind,
    subject: Seq<char>,
    dest: Seq<char>,
    contents: Seq<char>,
    env: EnvironmentView,
) -> OperationView {
    fresh_operation(
        kind,
        slashed(subject, env.separators),
        slashed(dest, env.separators),
        contents,
        false,
        env,
    )
}

/// The operation `kind` on a path.
pub fn operation_on_path(
    kind: OpKind,
    subject: &SoftPath,
    dest: &SoftPath,
    contents: String,
    env: &Environment,
) -> (op: Operation)
    ensures
        op@ == path_operation(kind, subject@, dest@, contents@, env@),
{
    Operation::new(
        kind,
        subject.slashed(env.separators),
        dest.slashed(env.separators),
        contents,
        false,
        env.duplicate(),
    )
}

/// The operation `kind` on a path, with no second path and no text.
fn on_path(kind: OpKind, subject: &SoftPath, env: &Environment) -> (op: Operation)
    ensures
        op@ == path_operation(kind, subject@, ""@, ""@, env@),
{
    operation_on_path(kind, subject, &SoftPath::new(""), String::from_str(""), env)
}

/// The operation `kind` on text, with no second path and no text to write.
fn on_text(kind: OpKind, text: &str, env: &Environment) -> (op: Operation)
    ensures
        is_text_operation(op@, kind, text@, ""@, ""@, env@),
{
    operation_on_text(kind, text, SoftPath::new(""), String::from_str(""), env)
}

impl PathExt for SoftPath {
    fn into_path(self, env: &Environment) -> (op: Operation)
        ensures
            op@ == path_operation(OpKind::IntoPath, self@, ""@, ""@, env@),
    {
        on_path(OpKind::IntoPath, &self, env)
    }

    fn try_exists(&self, env: &Environment) -> (op: Operation)
        ensures
            op@ == path_operation(OpKind::Exists, self@, ""@, ""@, env@),
    {
        on_path(OpKind::Exists, self, env)
    }

    fn is_file(&self, env: &Environment) -> (op: Operation)
        ensures
            op@ == path_operation(OpKind::IsFile, self@, ""@, ""@, env@),
    {
        on_path(OpKind::IsFile, self, env)
    }

    fn is_dir(&self, env: &Environment) -> (op: Operation)
        ensures
            op@ == path_operation(OpKind::IsDir, self@, ""@, ""@, env@),
    {
        on_path(OpKind::IsDir, self, env)
    }

    fn create_file(&self, env: &Environment) -> (op: Operation)
        ensures
            op@ == path_operation(OpKind::CreateFile, self@, ""@, ""@, env@),
    {
        on_path(OpKind::CreateFile, self, env)
    }

    fn create_dir_all(&self, env: &Environment) -> (op: Operation)
        ensures
            op@ == path_operation(OpKind::CreateDirAll, self@, ""@, ""@, env@),
    {
        on_path(OpKind::CreateDirAll, self, env)
    }

    fn remove(&self, env: &Environment) -> (op: Operation)
        ensures
            op@ == path_operation(OpKind::Remove, self@, ""@, ""@, env@),
    {
        on_path(OpKind::Remove, self, env)
    }

    fn read_to_string(&self, env: &Environment) -> (op: Operation)
        ensures
            op@ == path_operation(OpKind::ReadToString, self@, ""@, ""@, env@),
    {
        on_path(OpKind::ReadToString, self, env)
    }

    fn is_empty(&self, env: &Environment) -> (op: Operation)
        ensures
            op@ == path_operation(OpKind::IsEmpty, self@, ""@, ""@, env@),
    {
        on_path(OpKind::IsEmpty, self, env)
    }

    fn is_hidden(&self, env: &Environment) -> (op: Operation)
        ensures
            op@ == path_operation(OpKind::IsHidden, self@, ""@, ""@, env@),
    {
        on_path(OpKind::IsHidden, self, env)
    }

    fn file_name(&self, env: &Environment) -> (op: Operation)
        ensures
            op@ == path_operation(OpKind::FileName, self@, ""@, ""@, env@),
    {
        on_path(OpKind::FileName, self, env)
    }

    fn extension(&self, env: &Environment) -> (op: Operation)
        ensures
            op@ == path_operation(OpKind::Extension, self@, ""@, ""@, env@),
    {
        on_path(OpKind::Extension, self, env)
    }

    fn parent_name(&self, env: &Environment) -> (op: Operation)
        ensures
            op@ == path_operation(OpKind::ParentName, self@, ""@, ""@, env@),
    {
        on_path(OpKind::ParentName, self, env)
    }

    fn absolute(&self, env: &Environment) -> (op: Operation)
        ensures
            op@ == path_operation(OpKind::Absolute, self@, ""@, ""@, env@),
    {
        on_path(OpKind::Absolute, self, env)
    }

    fn write_string(&self, contents: &str, env: &Environment) -> (op: Operation)
        ensures
            op@ == path_operation(OpKind::WriteString, self@, ""@, contents@, env@),
    {
        operation_on_path(OpKind::WriteString, self, &SoftPath::new(""), contents.to_owned(), env)
    }

    fn copy_to(&self, dest: &SoftPath, env: &Environment) -> (op: Operation)
        ensures
            op@ == path_operation(OpKind::CopyTo, self@, dest@, ""@, env@),
    {
        operation_on_path(OpKind::CopyTo, self, dest, String::from_str(""), env)
    }

    fn move_to(&self, dest: &SoftPath, env: &Environment) -> (op: Operation)
        ensures
            op@ == path_operation(OpKind::MoveTo, self@, dest@, ""@, env@),
    {
        operation_on_path(OpKind::MoveTo, self, dest, String::from_str(""), env)
    }
}

impl PathExt for &str {
    fn into_path(self, env: &Environment) -> (op: Operation)
        ensures
            is_text_operation(op@, OpKind::IntoPath, self@, ""@, ""@, env@),
    {
        on_text(OpKind::IntoPath, self, env)
    }

    fn try_exists(&self, env: &Environment) -> (op: Operation)
        ensures
            is_text_operation(op@, OpKind::Exists, self@, ""@, ""@, env@),
    {
        on_text(OpKind::Exists, self, env)
    }

    fn is_file(&self, env: &Environment) -> (op: Operation)
        ensures
            is_text_operation(op@, OpKind::IsFile, self@, ""@, ""@, env@),
    {
        on_text(OpKind::IsFile, self, env)
    }

    fn is_dir(&self, env: &Environment) -> (op: Operation)
        ensures
            is_text_operation(op@, OpKind::IsDir, self@, ""@, ""@, env@),
    {
        on_text(OpKind::IsDir, self, env)
    }

    fn create_file(&self, env: &Environment) -> (op: Operation)
        ensures
            is_text_operation(op@, OpKind::CreateFile, self@, ""@, ""@, env@),
    {
        on_text(OpKind::CreateFile, self, env)
    }

    fn create_dir_all(&self, env: &Environment) -> (op: Operation)
        ensures
            is_text_operation(op@, OpKind::CreateDirAll, self@, ""@, ""@, env@),
    {
        on_text(OpKind::CreateDirAll, self, env)
    }

    fn remove(&self, env: &Environment) -> (op: Operation)
        ensures
            is_text_operation(op@, OpKind::Remove, self@, ""@, ""@, env@),
    {
        on_text(OpKind::Remove, self, env)
    }

    fn read_to_string(&self, env: &Environment) -> (op: Operation)
        ensures
            is_text_operation(op@, OpKind::ReadToString, self@, ""@, ""@, env@),
    {
        on_text(OpKind::ReadToString, self, env)
    }

    fn is_empty(&self, env: &Environment) -> (op: Operation)
        ensures
            is_text_operation(op@, OpKind::IsEmpty, self@, ""@, ""@, env@),
    {
        on_text(OpKind::IsEmpty, self, env)
    }

    fn is_hidden(&self, env: &Environment) -> (op: Operation)
        ensures
            is_text_operation(op@, OpKind::IsHidden, self@, ""@, ""@, env@),
    {
        on_text(OpKind::IsHidden, self, env)
    }

    fn file_name(&self, env: &Environment) -> (op: Operation)
        ensures
            is_text_operation(op@, OpKind::FileName, self@, ""@, ""@, env@),
    {
        on_text(OpKind::FileName, self, env)
    }

    fn extension(&self, env: &Environment) -> (op: Operation)
        ensures
            is_text_operation(op@, OpKind::Extension, self@, ""@, ""@, env@),
    {
        on_text(OpKind::Extension, self, env)
    }

    fn parent_name(&self, env: &Environment) -> (op: Operation)
        ensures
            is_text_operation(op@, OpKind::ParentName, self@, ""@, ""@, env@),
    {
        on_text(OpKind::ParentName, self, env)
    }

    fn absolute(&self, env: &Environment) -> (op: Operation)
        ensures
            is_text_operation(op@, OpKind::Absolute, self@, ""@, ""@, env@),
    {
        on_text(OpKind::Absolute, self, env)
    }

    fn write_string(&self, contents: &str, env: &Environment) -> (op: Operation)
        ensures
            is_text_operation(op@, OpKind::WriteString, self@, ""@, contents@, env@),
    {
        operation_on_text(OpKind::WriteString, self, SoftPath::new(""), contents.to_owned(), env)
    }

    fn copy_to(&self, dest: &SoftPath, env: &Environment) -> (op: Operation)
        ensures
            is_text_operation(op@, OpKind::CopyTo, self@, dest@, ""@, env@),
    {
        operation_on_text(OpKind::CopyTo, self, dest.duplicate(), String::from_str(""), env)
    }

    fn move_to(&self, dest: &SoftPath, env: &Environment) -> (op: Operation)
        ensures
            is_text_operation(op@, OpKind::MoveTo, self@, dest@, ""@, env@),
    {
        operation_on_text(OpKind::MoveTo, self, dest.duplicate(), String::from_str(""), env)
    }
}

} // verus!
