//! Every operation as a state machine: validation first, then the one
//! filesystem call, or the small fixed sequence of calls, that the
//! operation is for.

use vstd::prelude::*;
use vstd::string::StringExecFns;

use crate::environment::{Environment, EnvironmentView, HiddenRule};
use crate::error::{ErrorView, IoFailure, IoFailureView, IoKind, SoftPathError};
use crate::grammar::{extension, file_name, parent, with_extension};
use crate::path::SoftPath;
use crate::protocol::{
    outcome_view, unexpected, unexpected_event, Action, ActionView, Event, EventView, Outcome,
    OutcomeView, Value, ValueView,
};
use crate::symlinks::{check_symlink_cycles, fresh_walk, texts, walk_step, CycleWalk, CycleWalkView};
use crate::traversal::{check_path_traversal, traversal_verdict};

verus! {

/// The operations of the library.
#[derive(Debug, Clone, Copy, PartialEq, Eq, Structural)]
pub enum OpKind {
    IntoPath,
    Exists,
    IsFile,
    IsDir,
    CreateFile,
    CreateDirAll,
    Remove,
    ReadToString,
    WriteString,
    CopyTo,
    MoveTo,
    IsEmpty,
    IsHidden,
    FileName,
    Extension,
    ParentName,
    Absolute,
}

/// Where an operation stands: what it has asked and waits for.
#[derive(Debug, Clone, Copy, PartialEq, Eq, Structural)]
pub enum Stage {
    /// Nothing was asked yet.
    Fresh,
    /// A path is being checked for symbolic-link cycles.
    Checking,
    /// A yes-or-no answer that is the operation's result.
    AwaitFlag,
    /// The completion of the operation's last call.
    AwaitDone,
    /// The creation of the parent directories.
    AwaitParentDirs,
    /// The creation of the new file.
    AwaitCreated,
    /// The write of the temporary sibling.
    AwaitTemp,
    /// Whether the path to remove is a directory.
    AwaitRemoveKind,
    /// The text of the file.
    AwaitText,
    /// Whether the path to weigh is a regular file.
    AwaitEmptyFile,
    /// The length of the file.
    AwaitLength,
    /// Whether the path to weigh is a directory.
    AwaitEmptyDir,
    /// The attribute bits of the path.
    AwaitAttributes,
    /// The canonical form of the path.
    AwaitPath,
    /// The operation has ended.
    Finished,
}

/// One operation on one path, from its first question to its outcome.
#[derive(Debug, PartialEq, Eq)]
pub struct Operation {
    pub kind: OpKind,
    pub stage: Stage,
    pub env: Environment,
    /// The path that the operation is about.
    pub subject: SoftPath,
    /// The destination of a copy or a move; empty otherwise.
    pub dest: SoftPath,
    /// The text to write; empty otherwise.
    pub contents: String,
    /// Whether the subject came as text, and is therefore checked once more.
    pub from_text: bool,
    /// The paths that still await their checks, in order.
    pub pending: Vec<SoftPath>,
    /// The walk along the links of the path under check.
    pub walk: CycleWalk,
    /// The rejection that was decided before the first step, if any.
    pub failure: Option<SoftPathError>,
}

/// Mathematical model of an [`Operation`].
pub struct OperationView {
    pub kind: OpKind,
    pub stage: Stage,
    pub env: EnvironmentView,
    pub subject: Seq<char>,
    pub dest: Seq<char>,
    pub contents: Seq<char>,
    pub from_text: bool,
    pub pending: Seq<Seq<char>>,
    pub walk: CycleWalkView,
    pub failure: Option<ErrorView>,
}

impl View for Operation {
    type V = OperationView;

    open spec fn view(&self) -> OperationView {
        OperationView {
            kind: self.kind,
            stage: self.stage,
            env: self.env@,
            subject: self.subject@,
            dest: self.dest@,
            contents: self.contents@,
            from_text: self.from_text,
            pending: texts(self.pending@),
            walk: self.walk@,
            failure: match self.failure {
                Some(error) => Some(error@),
                None => None,
            },
        }
    }
}

/// The parent of a path as a list of checks: one path, or none.
pub open spec fn parent_checks(subject: Seq<char>) -> Seq<Seq<char>> {
    match parent(subject) {
        Some(up) => seq![up],
        None => Seq::empty(),
    }
}

/// The paths that an operation validates before it acts, in order. The
/// parent of a file to create is validated for itself: that a path is
/// safe says nothing of its parent.
pub open spec fn own_checks(kind: OpKind, subject: Seq<char>, dest: Seq<char>) -> Seq<Seq<char>> {
    match kind {
        OpKind::IntoPath => Seq::empty(),
        OpKind::CreateFile => seq![subject] + parent_checks(subject),
        OpKind::WriteString => seq![subject] + parent_checks(subject),
        OpKind::CopyTo => seq![dest],
        OpKind::MoveTo => seq![dest],
        _ => seq![subject],
    }
}

/// All checks of an operation: a subject that came as text is validated
/// when it is turned into a path, and again by the operation itself.
pub open spec fn checks_for(kind: OpKind, subject: Seq<char>, dest: Seq<char>, from_text: bool) -> Seq<
    Seq<char>,
> {
    if from_text {
        seq![subject] + own_checks(kind, subject, dest)
    } else {
        own_checks(kind, subject, dest)
    }
}

/// The sibling that a write goes to before it is renamed onto its target.
pub open spec fn temp_sibling(subject: Seq<char>) -> Seq<char> {
    with_extension(subject, "tmp"@)
}

/// The name of a path's parent directory.
pub open spec fn parent_name(subject: Seq<char>) -> Option<Seq<char>> {
    match parent(subject) {
        Some(up) => file_name(up),
        None => None,
    }
}

/// Whether a path's file name begins with `.`.
pub open spec fn has_dot_name(subject: Seq<char>) -> bool {
    match file_name(subject) {
        Some(name) => name.len() > 0 && name[0] == '.',
        None => false,
    }
}

/// The failure that a second creation of the same file ends with.
pub open spec fn already_exists(subject: Seq<char>) -> ErrorView {
    ErrorView::Io(
        IoFailureView { kind: IoKind::AlreadyExists, message: "File already exists: "@ + subject },
    )
}

/// The operation before its first step.
pub open spec fn fresh_operation(
    kind: OpKind,
    subject: Seq<char>,
    dest: Seq<char>,
    contents: Seq<char>,
    from_text: bool,
    env: EnvironmentView,
) -> OperationView {
    OperationView {
        kind,
        stage: Stage::Fresh,
        env,
        subject,
        dest,
        contents,
        from_text,
        pending: checks_for(kind, subject, dest, from_text),
        walk: fresh_walk(subject, env.config.max_symlink_depth, env.detail, env.separators),
        failure: None,
    }
}

/// The operation that was rejected before it began.
pub open spec fn rejected_operation(kind: OpKind, error: ErrorView, env: EnvironmentView) -> OperationView {
    OperationView {
        kind,
        stage: Stage::Fresh,
        env,
        subject: Seq::empty(),
        dest: Seq::empty(),
        contents: Seq::empty(),
        from_text: true,
        pending: Seq::empty(),
        walk: fresh_walk(Seq::empty(), env.config.max_symlink_depth, env.detail, env.separators),
        failure: Some(error),
    }
}

/// The operation ends with `outcome`.
pub open spec fn finished(op: OperationView, outcome: OutcomeView) -> (OperationView, ActionView) {
    (OperationView { stage: Stage::Finished, ..op }, ActionView::Finish(outcome))
}

/// The operation asks `action` and waits in `stage`.
pub open spec fn asks(op: OperationView, stage: Stage, action: ActionView) -> (
    OperationView,
    ActionView,
) {
    (OperationView { stage, ..op }, action)
}

/// What follows the creation of the parent directories, or stands in its
/// place where the path has no parent.
pub open spec fn after_parent(op: OperationView) -> (OperationView, ActionView) {
    match op.kind {
        OpKind::CreateFile => asks(op, Stage::AwaitCreated, ActionView::CreateNew(op.subject)),
        OpKind::WriteString => asks(
            op,
            Stage::AwaitTemp,
            ActionView::WriteSynced(temp_sibling(op.subject), op.contents),
        ),
        _ => finished(op, Err(unexpected_event())),
    }
}

/// The first filesystem call of an operation whose paths are all validated.
pub open spec fn act(op: OperationView) -> (OperationView, ActionView) {
    match op.kind {
        OpKind::IntoPath => finished(op, Ok(ValueView::Path(op.subject))),
        OpKind::Exists => asks(op, Stage::AwaitFlag, ActionView::Exists(op.subject)),
        OpKind::IsFile => asks(op, Stage::AwaitFlag, ActionView::IsFile(op.subject)),
        OpKind::IsDir => asks(op, Stage::AwaitFlag, ActionView::IsDir(op.subject)),
        OpKind::CreateFile => match parent(op.subject) {
            Some(up) => asks(op, Stage::AwaitParentDirs, ActionView::CreateDirAll(up)),
            None => after_parent(op),
        },
        OpKind::WriteString => match parent(op.subject) {
            Some(up) => asks(op, Stage::AwaitParentDirs, ActionView::CreateDirAll(up)),
            None => after_parent(op),
        },
        OpKind::CreateDirAll => asks(op, Stage::AwaitDone, ActionView::CreateDirAll(op.subject)),
        OpKind::Remove => asks(op, Stage::AwaitRemoveKind, ActionView::IsDir(op.subject)),
        OpKind::ReadToString => asks(op, Stage::AwaitText, ActionView::ReadToString(op.subject)),
        OpKind::CopyTo => asks(op, Stage::AwaitDone, ActionView::Copy(op.subject, op.dest)),
        OpKind::MoveTo => asks(op, Stage::AwaitDone, ActionView::Rename(op.subject, op.dest)),
        OpKind::IsEmpty => asks(op, Stage::AwaitEmptyFile, ActionView::IsFile(op.subject)),
        OpKind::IsHidden => match op.env.hidden {
            HiddenRule::LeadingDot => finished(op, Ok(ValueView::Flag(has_dot_name(op.subject)))),
            HiddenRule::AttributeBit => asks(
                op,
                Stage::AwaitAttributes,
                ActionView::Attributes(op.subject),
            ),
        },
        OpKind::FileName => finished(op, Ok(ValueView::Name(file_name(op.subject)))),
        OpKind::Extension => finished(op, Ok(ValueView::Name(extension(op.subject)))),
        OpKind::ParentName => finished(op, Ok(ValueView::Name(parent_name(op.subject)))),
        OpKind::Absolute => asks(op, Stage::AwaitPath, ActionView::Canonicalize(op.subject)),
    }
}

/// Takes up the next pending check: the traversal check at once, then the
/// first question of the walk along the path's links. With no check left,
/// the operation acts.
pub open spec fn next_check(op: OperationView) -> (OperationView, ActionView) {
    if op.pending.len() == 0 {
        act(op)
    } else {
        let path = op.pending[0];
        let rest = OperationView { pending: op.pending.drop_first(), ..op };
        match traversal_verdict(path, op.env) {
            Err(error) => finished(rest, Err(error)),
            Ok(_) => {
                let walked = walk_step(
                    fresh_walk(path, op.env.config.max_symlink_depth, op.env.detail, op.env.separators),
                    EventView::Start,
                );
                (OperationView { stage: Stage::Checking, walk: walked.0, ..rest }, walked.1)
            },
        }
    }
}

/// A step of an operation that waits for the answer to a filesystem call.
pub open spec fn react(op: OperationView, event: EventView) -> (OperationView, ActionView) {
    match (op.stage, event) {
        (Stage::AwaitCreated, EventView::Failed(failure)) => if failure.kind
            == IoKind::AlreadyExists {
            finished(op, Err(already_exists(op.subject)))
        } else {
            finished(op, Err(ErrorView::Io(failure)))
        },
        (_, EventView::Failed(failure)) => finished(op, Err(ErrorView::Io(failure))),
        (Stage::AwaitFlag, EventView::Flag(flag)) => finished(op, Ok(ValueView::Flag(flag))),
        (Stage::AwaitDone, EventView::Done) => finished(op, Ok(ValueView::Unit)),
        (Stage::AwaitParentDirs, EventView::Done) => after_parent(op),
        (Stage::AwaitCreated, EventView::Done) => finished(op, Ok(ValueView::Unit)),
        (Stage::AwaitTemp, EventView::Done) => asks(
            op,
            Stage::AwaitDone,
            ActionView::Rename(temp_sibling(op.subject), op.subject),
        ),
        (Stage::AwaitRemoveKind, EventView::Flag(true)) => asks(
            op,
            Stage::AwaitDone,
            ActionView::RemoveDirAll(op.subject),
        ),
        (Stage::AwaitRemoveKind, EventView::Flag(false)) => asks(
            op,
            Stage::AwaitDone,
            ActionView::RemoveFile(op.subject),
        ),
        (Stage::AwaitText, EventView::Text(text)) => finished(op, Ok(ValueView::Text(text))),
        (Stage::AwaitEmptyFile, EventView::Flag(true)) => asks(
            op,
            Stage::AwaitLength,
            ActionView::FileLen(op.subject),
        ),
        (Stage::AwaitEmptyFile, EventView::Flag(false)) => asks(
            op,
            Stage::AwaitEmptyDir,
            ActionView::IsDir(op.subject),
        ),
        (Stage::AwaitLength, EventView::Number(length)) => finished(
            op,
            Ok(ValueView::Flag(length == 0)),
        ),
        (Stage::AwaitEmptyDir, EventView::Flag(true)) => asks(
            op,
            Stage::AwaitFlag,
            ActionView::DirIsEmpty(op.subject),
        ),
        (Stage::AwaitEmptyDir, EventView::Flag(false)) => finished(op, Ok(ValueView::Flag(false))),
        (Stage::AwaitAttributes, EventView::Number(bits)) => finished(
            op,
            Ok(ValueView::Flag(bits & 2 != 0)),
        ),
        (Stage::AwaitPath, EventView::Path(path)) => finished(op, Ok(ValueView::Path(path))),
        _ => finished(op, Err(unexpected_event())),
    }
}

/// One step of an operation: the state after `event`, and what to do next.
pub open spec fn op_step(op: OperationView, event: EventView) -> (OperationView, ActionView) {
    match op.stage {
        Stage::Fresh => match event {
            EventView::Start => match op.failure {
                Some(error) => finished(op, Err(error)),
                None => next_check(op),
            },
            _ => finished(op, Err(unexpected_event())),
        },
        Stage::Checking => {
            let walked = walk_step(op.walk, event);
            let moved = OperationView { walk: walked.0, ..op };
            match walked.1 {
                ActionView::Finish(Ok(_)) => next_check(moved),
                ActionView::Finish(Err(error)) => finished(moved, Err(error)),
                question => (moved, question),
            }
        },
        Stage::Finished => finished(op, Err(unexpected_event())),
        _ => react(op, event),
    }
}

/// The checks of an operation, as paths.
fn checks_of(kind: OpKind, subject: &SoftPath, dest: &SoftPath, from_text: bool) -> (checks: Vec<
    SoftPath,
>)
    ensures
        texts(checks@) == checks_for(kind, subject@, dest@, from_text),
{
    let mut checks: Vec<SoftPath> = Vec::new();
    if from_text {
        checks.push(subject.duplicate());
    }
    match kind {
        OpKind::IntoPath => {},
        OpKind::CreateFile | OpKind::WriteString => {
            checks.push(subject.duplicate());
            match subject.parent() {
                Some(up) => {
                    checks.push(up);
                },
                None => {},
            }
        },
        OpKind::CopyTo | OpKind::MoveTo => {
            checks.push(dest.duplicate());
        },
        _ => {
            checks.push(subject.duplicate());
        },
    }
    assert(texts(checks@) =~= checks_for(kind, subject@, dest@, from_text));
    checks
}

/// Whether the path's file name begins with `.`.
fn dot_name(path: &SoftPath) -> (hidden: bool)
    ensures
        hidden == has_dot_name(path@),
{
    match path.name() {
        Some(name) => name.as_str().unicode_len() > 0 && name.as_str().get_char(0) == '.',
        None => false,
    }
}

impl Operation {
    /// The operation `kind` on `subject`, before its first step.
    pub fn new(
        kind: OpKind,
        subject: SoftPath,
        dest: SoftPath,
        contents: String,
        from_text: bool,
        env: Environment,
    ) -> (op: Operation)
        ensures
            op@ == fresh_operation(kind, subject@, dest@, contents@, from_text, env@),
    {
        let pending = checks_of(kind, &subject, &dest, from_text);
        let walk = check_symlink_cycles(&subject, &env);
        Operation {
            kind,
            stage: Stage::Fresh,
            env,
            subject,
            dest,
            contents,
            from_text,
            pending,
            walk,
            failure: None,
        }
    }

    /// The operation `kind` that ends with `error` at its first step.
    pub fn rejected(kind: OpKind, error: SoftPathError, env: Environment) -> (op: Operation)
        ensures
            op@ == rejected_operation(kind, error@, env@),
    {
        let subject = SoftPath::new("");
        let walk = check_symlink_cycles(&subject, &env);
        let pending: Vec<SoftPath> = Vec::new();
        proof {
            reveal_strlit("");
            assert(subject@ =~= Seq::<char>::empty());
            assert(texts(pending@) =~= Seq::<Seq<char>>::empty());
        }
        Operation {
            kind,
            stage: Stage::Fresh,
            env,
            subject,
            dest: SoftPath::new(""),
            contents: String::from_str(""),
            from_text: true,
            pending,
            walk,
            failure: Some(error),
        }
    }

    /// Ends the operation.
    fn finish(&mut self, outcome: Outcome) -> (action: Action)
        ensures
            (final(self)@, action@) == finished(old(self)@, outcome_view(outcome)),
    {
        self.stage = Stage::Finished;
        Action::Finish(outcome)
    }

    /// Creates the file, or writes the temporary sibling.
    fn after_parent(&mut self) -> (action: Action)
        ensures
            (final(self)@, action@) == after_parent(old(self)@),
    {
        match self.kind {
            OpKind::CreateFile => {
                self.stage = Stage::AwaitCreated;
                Action::CreateNew(self.subject.duplicate())
            },
            OpKind::WriteString => {
                self.stage = Stage::AwaitTemp;
                Action::WriteSynced(self.subject.with_extension("tmp"), self.contents.clone())
            },
            _ => self.finish(Err(unexpected())),
        }
    }

    /// Makes the operation's first filesystem call.
    fn act(&mut self) -> (action: Action)
        ensures
            (final(self)@, action@) == act(old(self)@),
    {
        match self.kind {
            OpKind::IntoPath => {
                let path = self.subject.duplicate();
                self.finish(Ok(Value::Path(path)))
            },
            OpKind::Exists => {
                self.stage = Stage::AwaitFlag;
                Action::Exists(self.subject.duplicate())
            },
            OpKind::IsFile => {
                self.stage = Stage::AwaitFlag;
                Action::IsFile(self.subject.duplicate())
            },
            OpKind::IsDir => {
                self.stage = Stage::AwaitFlag;
                Action::IsDir(self.subject.duplicate())
            },
            OpKind::CreateFile | OpKind::WriteString => match self.subject.parent() {
                Some(up) => {
                    self.stage = Stage::AwaitParentDirs;
                    Action::CreateDirAll(up)
                },
                None => self.after_parent(),
            },
            OpKind::CreateDirAll => {
                self.stage = Stage::AwaitDone;
                Action::CreateDirAll(self.subject.duplicate())
            },
            OpKind::Remove => {
                self.stage = Stage::AwaitRemoveKind;
                Action::IsDir(self.subject.duplicate())
            },
            OpKind::ReadToString => {
                self.stage = Stage::AwaitText;
                Action::ReadToString(self.subject.duplicate())
            },
            OpKind::CopyTo => {
                self.stage = Stage::AwaitDone;
                Action::Copy(self.subject.duplicate(), self.dest.duplicate())
            },
            OpKind::MoveTo => {
                self.stage = Stage::AwaitDone;
                Action::Rename(self.subject.duplicate(), self.dest.duplicate())
            },
            OpKind::IsEmpty => {
                self.stage = Stage::AwaitEmptyFile;
                Action::IsFile(self.subject.duplicate())
            },
            OpKind::IsHidden => match self.env.hidden {
                HiddenRule::LeadingDot => {
                    let hidden = dot_name(&self.subject);
                    self.finish(Ok(Value::Flag(hidden)))
                },
                HiddenRule::AttributeBit => {
                    self.stage = Stage::AwaitAttributes;
                    Action::Attributes(self.subject.duplicate())
                },
            },
            OpKind::FileName => {
                let name = self.subject.name();
                self.finish(Ok(Value::Name(name)))
            },
            OpKind::Extension => {
                let name = self.subject.ext();
                self.finish(Ok(Value::Name(name)))
            },
            OpKind::ParentName => {
                let name = match self.subject.parent() {
                    Some(up) => up.name(),
                    None => None,
                };
                self.finish(Ok(Value::Name(name)))
            },
            OpKind::Absolute => {
                self.stage = Stage::AwaitPath;
                Action::Canonicalize(self.subject.duplicate())
            },
        }
    }

    /// Takes up the next pending check.
    fn next_check(&mut self) -> (action: Action)
        ensures
            (final(self)@, action@) == next_check(old(self)@),
    {
        if self.pending.len() == 0 {
            return self.act();
        }
        let path = self.pending.remove(0);
        assert(texts(self.pending@) =~= texts(old(self).pending@).drop_first());
        assert(path@ == texts(old(self).pending@)[0]);
        match check_path_traversal(&path, &self.env) {
            Err(error) => self.finish(Err(error)),
            Ok(_) => {
                let mut walk = check_symlink_cycles(&path, &self.env);
                let action = walk.step(Event::Start);
                self.walk = walk;
                self.stage = Stage::Checking;
                action
            },
        }
    }

    /// Takes the answer to a filesystem call.
    fn react(&mut self, event: Event) -> (action: Action)
        ensures
            (final(self)@, action@) == react(old(self)@, event@),
    {
        match event {
            Event::Failed(failure) => {
                let clash = match (self.stage, failure.kind) {
                    (Stage::AwaitCreated, IoKind::AlreadyExists) => true,
                    _ => false,
                };
                if clash {
                    let message = String::from_str("File already exists: ").concat(
                        self.subject.as_str(),
                    );
                    self.finish(
                        Err(
                            SoftPathError::Io(
                                IoFailure { kind: IoKind::AlreadyExists, message },
                            ),
                        ),
                    )
                } else {
                    self.finish(Err(SoftPathError::Io(failure)))
                }
            },
            Event::Flag(flag) => match self.stage {
                Stage::AwaitFlag => self.finish(Ok(Value::Flag(flag))),
                Stage::AwaitRemoveKind => {
                    self.stage = Stage::AwaitDone;
                    if flag {
                        Action::RemoveDirAll(self.subject.duplicate())
                    } else {
                        Action::RemoveFile(self.subject.duplicate())
                    }
                },
                Stage::AwaitEmptyFile => {
                    if flag {
                        self.stage = Stage::AwaitLength;
                        Action::FileLen(self.subject.duplicate())
                    } else {
                        self.stage = Stage::AwaitEmptyDir;
                        Action::IsDir(self.subject.duplicate())
                    }
                },
                Stage::AwaitEmptyDir => {
                    if flag {
                        self.stage = Stage::AwaitFlag;
                        Action::DirIsEmpty(self.subject.duplicate())
                    } else {
                        self.finish(Ok(Value::Flag(false)))
                    }
                },
                _ => self.finish(Err(unexpected())),
            },
            Event::Done => match self.stage {
                Stage::AwaitDone => self.finish(Ok(Value::Unit)),
                Stage::AwaitParentDirs => self.after_parent(),
                Stage::AwaitCreated => self.finish(Ok(Value::Unit)),
                Stage::AwaitTemp => {
                    self.stage = Stage::AwaitDone;
                    Action::Rename(self.subject.with_extension("tmp"), self.subject.duplicate())
                },
                _ => self.finish(Err(unexpected())),
            },
            Event::Text(text) => match self.stage {
                Stage::AwaitText => self.finish(Ok(Value::Text(text))),
                _ => self.finish(Err(unexpected())),
            },
            Event::Number(number) => match self.stage {
                Stage::AwaitLength => self.finish(Ok(Value::Flag(number == 0))),
                Stage::AwaitAttributes => self.finish(Ok(Value::Flag(number & 2 != 0))),
                _ => self.finish(Err(unexpected())),
            },
            Event::Path(path) => match self.stage {
                Stage::AwaitPath => self.finish(Ok(Value::Path(path))),
                _ => self.finish(Err(unexpected())),
            },
            Event::Start => self.finish(Err(unexpected())),
        }
    }

    /// Takes the driver's answer to the last action and says what to do
    /// next. The first event of an operation is [`Event::Start`]; the last
    /// action is [`Action::Finish`].
    pub fn step(&mut self, event: Event) -> (action: Action)
        ensures
            (final(self)@, action@) == op_step(old(self)@, event@),
    {
        match self.stage {
            Stage::Fresh => match event {
                Event::Start => {
                    let failure = self.failure.take();
                    match failure {
                        Some(error) => {
                            self.failure = Some(error.duplicate());
                            self.finish(Err(error))
                        },
                        None => self.next_check(),
                    }
                },
                _ => self.finish(Err(unexpected())),
            },
            Stage::Checking => {
                let asked = self.walk.step(event);
                match asked {
                    Action::Finish(Ok(_)) => self.next_check(),
                    Action::Finish(Err(error)) => self.finish(Err(error)),
                    question => question,
                }
            },
            Stage::Finished => self.finish(Err(unexpected())),
            _ => self.react(event),
        }
    }
}

} // verus!
