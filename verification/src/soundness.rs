//! What holds of every run of an operation: it changes the filesystem only
//! after its paths have passed both checks, it changes nothing but what
//! it is for, it ends with a value of its own kind, and it ends.

use vstd::prelude::*;

use crate::error::{ErrorView, IoKind};
use crate::operations::{
    act, already_exists, checks_for, fresh_operation, next_check, op_step, rejected_operation,
    temp_sibling, OpKind, OperationView, Stage,
};
use crate::environment::EnvironmentView;
use crate::grammar::{extension, file_name, lemma_new_extension_changes_path, parent};
use crate::protocol::{unexpected_event, ActionView, EventView, ValueView};
use crate::symlinks::{
    cycle_verdict, lemma_step_keeps_well_formed, walk_outcome, walk_step, CycleWalkView,
    WalkStage,
};
use crate::traversal::traversal_verdict;

verus! {

/// The links of a filesystem: each key is a symbolic link, and its value
/// is where the link points.
pub type Links = Map<Seq<char>, Seq<char>>;

/// A path passes both checks.
pub open spec fn validated(path: Seq<char>, env: EnvironmentView, links: Links) -> bool {
    &&& traversal_verdict(path, env) is Ok
    &&& cycle_verdict(path, env.config.max_symlink_depth, env.detail, env.separators, links) is Ok
}

/// The paths that the operation validates.
pub open spec fn checks_of(op: OperationView) -> Seq<Seq<char>> {
    checks_for(op.kind, op.subject, op.dest, op.from_text)
}

/// An action that changes the filesystem.
pub open spec fn changes(action: ActionView) -> bool {
    match action {
        ActionView::CreateDirAll(_) => true,
        ActionView::CreateNew(_) => true,
        ActionView::WriteSynced(_, _) => true,
        ActionView::Rename(_, _) => true,
        ActionView::Copy(_, _) => true,
        ActionView::RemoveDirAll(_) => true,
        ActionView::RemoveFile(_) => true,
        _ => false,
    }
}

/// The changes that an operation is for.
pub open spec fn permitted(op: OperationView, action: ActionView) -> bool {
    match op.kind {
        OpKind::CreateFile => action == ActionView::CreateNew(op.subject) || (parent(op.subject)
            matches Some(up) && action == ActionView::CreateDirAll(up)),
        OpKind::WriteString => action == ActionView::WriteSynced(
            temp_sibling(op.subject),
            op.contents,
        ) || action == ActionView::Rename(temp_sibling(op.subject), op.subject) || (parent(
            op.subject,
        ) matches Some(up) && action == ActionView::CreateDirAll(up)),
        OpKind::CreateDirAll => action == ActionView::CreateDirAll(op.subject),
        OpKind::Remove => action == ActionView::RemoveDirAll(op.subject) || action
            == ActionView::RemoveFile(op.subject),
        OpKind::CopyTo => action == ActionView::Copy(op.subject, op.dest),
        OpKind::MoveTo => action == ActionView::Rename(op.subject, op.dest),
        _ => false,
    }
}

/// The kind of value that each operation yields.
pub open spec fn value_fits(kind: OpKind, value: ValueView) -> bool {
    match kind {
        OpKind::IntoPath => value is Path,
        OpKind::Absolute => value is Path,
        OpKind::Exists => value is Flag,
        OpKind::IsFile => value is Flag,
        OpKind::IsDir => value is Flag,
        OpKind::IsEmpty => value is Flag,
        OpKind::IsHidden => value is Flag,
        OpKind::ReadToString => value is Text,
        OpKind::FileName => value is Name,
        OpKind::Extension => value is Name,
        OpKind::ParentName => value is Name,
        OpKind::CreateFile => value is Unit,
        OpKind::CreateDirAll => value is Unit,
        OpKind::Remove => value is Unit,
        OpKind::WriteString => value is Unit,
        OpKind::CopyTo => value is Unit,
        OpKind::MoveTo => value is Unit,
    }
}

/// The stages that an operation of each kind can wait in.
pub open spec fn stage_fits(kind: OpKind, stage: Stage) -> bool {
    match stage {
        Stage::Fresh => true,
        Stage::Checking => true,
        Stage::Finished => true,
        Stage::AwaitFlag => kind == OpKind::Exists || kind == OpKind::IsFile || kind
            == OpKind::IsDir || kind == OpKind::IsEmpty,
        Stage::AwaitDone => kind == OpKind::CreateDirAll || kind == OpKind::Remove || kind
            == OpKind::CopyTo || kind == OpKind::MoveTo || kind == OpKind::WriteString,
        Stage::AwaitParentDirs => (kind == OpKind::CreateFile || kind == OpKind::WriteString),
        Stage::AwaitCreated => kind == OpKind::CreateFile,
        Stage::AwaitTemp => kind == OpKind::WriteString,
        Stage::AwaitRemoveKind => kind == OpKind::Remove,
        Stage::AwaitText => kind == OpKind::ReadToString,
        Stage::AwaitEmptyFile => kind == OpKind::IsEmpty,
        Stage::AwaitLength => kind == OpKind::IsEmpty,
        Stage::AwaitEmptyDir => kind == OpKind::IsEmpty,
        Stage::AwaitAttributes => kind == OpKind::IsHidden,
        Stage::AwaitPath => kind == OpKind::Absolute,
    }
}

/// The verdict that a walk in progress will reach over `links`.
pub open spec fn walk_promise(walk: CycleWalkView, links: Links) -> Result<(), ErrorView> {
    match walk.stage {
        WalkStage::Probing => walk_outcome(walk, links),
        WalkStage::Reading => walk_outcome(
            walk_step(walk, EventView::Path(links[walk.current])).0,
            links,
        ),
        _ => Err(unexpected_event()),
    }
}

/// The states that an operation passes through when its driver answers
/// truly over `links`.
pub open spec fn sound(op: OperationView, links: Links) -> bool {
    let checks = checks_of(op);
    let done = checks.len() - op.pending.len();
    match op.stage {
        Stage::Finished => true,
        Stage::Fresh => op.failure is None ==> op.pending == checks,
        Stage::Checking => {
            &&& 1 <= done
            &&& op.pending == checks.skip(done)
            &&& forall|i: int| 0 <= i < done - 1 ==> validated(#[trigger] checks[i], op.env, links)
            &&& traversal_verdict(checks[done - 1], op.env) is Ok
            &&& op.walk.limit == op.env.config.max_symlink_depth
            &&& op.walk.detail == op.env.detail
            &&& op.walk.separators == op.env.separators
            &&& op.walk.well_formed()
            &&& (op.walk.stage == WalkStage::Probing || op.walk.stage == WalkStage::Reading)
            &&& op.walk.stage == WalkStage::Reading ==> links.dom().contains(op.walk.current)
            &&& walk_promise(op.walk, links) == cycle_verdict(
                checks[done - 1],
                op.env.config.max_symlink_depth,
                op.env.detail,
                op.env.separators,
                links,
            )
        },
        _ => {
            &&& stage_fits(op.kind, op.stage)
            &&& forall|i: int| 0 <= i < checks.len() ==> validated(#[trigger] checks[i], op.env, links)
        },
    }
}

/// The driver's answers on symbolic links are those of `links`.
pub open spec fn faithful(op: OperationView, event: EventView, links: Links) -> bool {
    op.stage == Stage::Checking ==> match (op.walk.stage, event) {
        (WalkStage::Probing, EventView::Flag(flag)) => flag == links.dom().contains(
            op.walk.current,
        ),
        (WalkStage::Reading, EventView::Path(target)) => target == links[op.walk.current],
        _ => true,
    }
}

/// Every operation begins in a sound state.
pub proof fn lemma_begins_sound(
    kind: OpKind,
    subject: Seq<char>,
    dest: Seq<char>,
    contents: Seq<char>,
    from_text: bool,
    env: EnvironmentView,
    links: Links,
)
    ensures
        sound(fresh_operation(kind, subject, dest, contents, from_text, env), links),
{
}

/// An operation that was rejected before it began is sound, and ends at
/// its first step with that rejection and no action.
pub proof fn lemma_rejected_ends_at_once(
    kind: OpKind,
    error: ErrorView,
    env: EnvironmentView,
    links: Links,
)
    ensures
        sound(rejected_operation(kind, error, env), links),
        op_step(rejected_operation(kind, error, env), EventView::Start).1 == ActionView::Finish(
            Err(error),
        ),
{
}

/// With every check passed, the operation's first call leaves it sound.
proof fn lemma_act_sound(op: OperationView, links: Links)
    requires
        forall|i: int|
            0 <= i < checks_of(op).len() ==> validated(#[trigger] checks_of(op)[i], op.env, links),
    ensures
        sound(act(op).0, links),
        changes(act(op).1) ==> permitted(op, act(op).1),
        act(op).1 matches ActionView::Finish(Ok(value)) ==> value_fits(op.kind, value),
        checks_of(act(op).0) == checks_of(op),
        act(op).0.kind == op.kind,
{
    let next = act(op).0;
    assert(next.kind == op.kind && next.subject == op.subject && next.dest == op.dest
        && next.from_text == op.from_text && next.env == op.env);
    assert(checks_of(next) == checks_of(op));
    assert(stage_fits(next.kind, next.stage));
    assert forall|i: int| 0 <= i < checks_of(next).len() implies validated(
        #[trigger] checks_of(next)[i],
        next.env,
        links,
    ) by {
        assert(validated(checks_of(op)[i], op.env, links));
    }
}

/// Taking up the next check leaves the operation sound.
proof fn lemma_next_check_sound(op: OperationView, links: Links)
    requires
        op.pending.len() <= checks_of(op).len(),
        op.pending == checks_of(op).skip(checks_of(op).len() - op.pending.len()),
        forall|i: int|
            0 <= i < checks_of(op).len() - op.pending.len() ==> validated(
                #[trigger] checks_of(op)[i],
                op.env,
                links,
            ),
    ensures
        sound(next_check(op).0, links),
        changes(next_check(op).1) ==> permitted(op, next_check(op).1) && forall|i: int|
            0 <= i < checks_of(op).len() ==> validated(#[trigger] checks_of(op)[i], op.env, links),
        next_check(op).1 matches ActionView::Finish(Ok(value)) ==> value_fits(op.kind, value),
{
    let checks = checks_of(op);
    let done = checks.len() - op.pending.len();
    if op.pending.len() == 0 {
        lemma_act_sound(op, links);
    } else {
        let path = op.pending[0];
        assert(path == checks[done]);
        let rest = OperationView { pending: op.pending.drop_first(), ..op };
        assert(rest.pending =~= checks.skip(done + 1));
        if traversal_verdict(path, op.env) is Ok {
            let next = next_check(op).0;
            assert(checks_of(next) == checks);
            assert(next.pending == checks.skip(done + 1));
        }
    }
}

/// A path that fails the traversal check ends the operation before
/// anything is asked of the filesystem.
pub proof fn lemma_rejection_asks_nothing(
    kind: OpKind,
    subject: Seq<char>,
    dest: Seq<char>,
    contents: Seq<char>,
    from_text: bool,
    env: EnvironmentView,
)
    requires
        checks_for(kind, subject, dest, from_text).len() > 0,
        traversal_verdict(checks_for(kind, subject, dest, from_text)[0], env) is Err,
    ensures
        op_step(
            fresh_operation(kind, subject, dest, contents, from_text, env),
            EventView::Start,
        ).1 == ActionView::Finish(
            Err(traversal_verdict(checks_for(kind, subject, dest, from_text)[0], env)->Err_0),
        ),
{
}

/// A driver that answers truly keeps the operation sound.
pub proof fn lemma_step_keeps_sound(op: OperationView, event: EventView, links: Links)
    requires
        sound(op, links),
        faithful(op, event, links),
    ensures
        sound(op_step(op, event).0, links),
{
    lemma_step(op, event, links);
}

/// An operation changes the filesystem only after every path that it
/// validates has passed both checks, and only in the way that it is for.
pub proof fn lemma_change_needs_validation(op: OperationView, event: EventView, links: Links)
    requires
        sound(op, links),
        faithful(op, event, links),
        changes(op_step(op, event).1),
    ensures
        forall|i: int|
            0 <= i < checks_of(op).len() ==> validated(#[trigger] checks_of(op)[i], op.env, links),
        permitted(op, op_step(op, event).1),
{
    lemma_step(op, event, links);
}

/// An operation that succeeds yields a value of its own kind.
pub proof fn lemma_value_fits_kind(
    op: OperationView,
    event: EventView,
    links: Links,
    value: ValueView,
)
    requires
        sound(op, links),
        faithful(op, event, links),
        op_step(op, event).1 == ActionView::Finish(Ok(value)),
    ensures
        value_fits(op.kind, value),
{
    lemma_step(op, event, links);
}

/// What one step of a sound operation brings.
proof fn lemma_step(op: OperationView, event: EventView, links: Links)
    requires
        sound(op, links),
        faithful(op, event, links),
    ensures
        sound(op_step(op, event).0, links),
        changes(op_step(op, event).1) ==> permitted(op, op_step(op, event).1) && forall|i: int|
            0 <= i < checks_of(op).len() ==> validated(#[trigger] checks_of(op)[i], op.env, links),
        op_step(op, event).1 matches ActionView::Finish(Ok(value)) ==> value_fits(op.kind, value),
{
    let checks = checks_of(op);
    match op.stage {
        Stage::Fresh => {
            if event == EventView::Start && op.failure is None {
                assert(op.pending.skip(0) =~= op.pending);
                lemma_next_check_sound(op, links);
            }
        },
        Stage::Checking => {
            let done = checks.len() - op.pending.len();
            let walked = walk_step(op.walk, event);
            let moved = OperationView { walk: walked.0, ..op };
            lemma_step_keeps_well_formed(op.walk, event);
            assert(checks_of(moved) == checks);
            match walked.1 {
                ActionView::Finish(Ok(_)) => {
                    assert(validated(checks[done - 1], op.env, links));
                    assert forall|i: int| 0 <= i < done implies validated(
                        #[trigger] checks[i],
                        op.env,
                        links,
                    ) by {
                        if i < done - 1 {
                        }
                    }
                    lemma_next_check_sound(moved, links);
                },
                ActionView::Finish(Err(_)) => {},
                _ => {},
            }
        },
        Stage::Finished => {},
        _ => {},
    }
}

/// How many more answers a walk can take before it ends.
pub open spec fn walk_budget(walk: CycleWalkView) -> int {
    let room: int = if walk.followed < walk.limit {
        walk.limit - walk.followed
    } else {
        0
    };
    match walk.stage {
        WalkStage::Fresh => 2 * room + 2,
        WalkStage::Probing => 2 * room + 1,
        WalkStage::Reading => 2 * room + 2,
        WalkStage::Finished => 0,
    }
}

/// How many more answers an operation can take before it ends: for each
/// pending check a whole walk, and a few calls at the end.
pub open spec fn budget(op: OperationView) -> int {
    let per_check = 2 * op.env.config.max_symlink_depth + 3;
    match op.stage {
        Stage::Fresh => op.pending.len() * per_check + 5,
        Stage::Checking => op.pending.len() * per_check + walk_budget(op.walk) + 4,
        Stage::Finished => 0,
        Stage::AwaitEmptyFile => 3,
        Stage::AwaitParentDirs => 3,
        Stage::AwaitTemp => 2,
        Stage::AwaitRemoveKind => 2,
        Stage::AwaitEmptyDir => 2,
        _ => 1,
    }
}

/// The first call of an operation leaves at most three answers to take.
proof fn lemma_act_budget(op: OperationView)
    ensures
        budget(act(op).0) <= 3,
        act(op).1 is Finish ==> act(op).0.stage == Stage::Finished,
{
}

/// Taking up a check costs less than a check's share of the budget.
proof fn lemma_next_check_budget(op: OperationView)
    ensures
        budget(next_check(op).0) <= op.pending.len() * (2 * op.env.config.max_symlink_depth + 3)
            + 3,
        next_check(op).1 is Finish ==> next_check(op).0.stage == Stage::Finished,
{
    let per_check = 2 * op.env.config.max_symlink_depth + 3;
    let n = op.pending.len() as int;
    if n == 0 {
        lemma_act_budget(op);
    } else {
        assert((n - 1) * per_check == n * per_check - per_check) by (nonlinear_arith);
        assert(op.pending.drop_first().len() == n - 1);
    }
    assert(0 <= n * per_check) by (nonlinear_arith)
        requires
            0 <= n,
            0 <= per_check,
    ;
}

/// Every step that does not end the operation spends some of its budget,
/// and the budget is never in debt: whatever the driver answers, the
/// operation ends after at most `budget` answers.
pub proof fn lemma_step_spends_budget(op: OperationView, event: EventView)
    ensures
        0 <= budget(op),
        op_step(op, event).1 is Finish ==> op_step(op, event).0.stage == Stage::Finished,
        !(op_step(op, event).1 is Finish) ==> budget(op_step(op, event).0) < budget(op),
{
    assert(0 <= op.pending.len() * (2 * op.env.config.max_symlink_depth + 3)) by (nonlinear_arith);
    match op.stage {
        Stage::Fresh => {
            lemma_next_check_budget(op);
        },
        Stage::Checking => {
            let walked = walk_step(op.walk, event);
            let moved = OperationView { walk: walked.0, ..op };
            lemma_next_check_budget(moved);
        },
        _ => {},
    }
}

/// An operation that has just begun ends after at most three walks and
/// five more answers.
pub proof fn lemma_operation_is_bounded(
    kind: OpKind,
    subject: Seq<char>,
    dest: Seq<char>,
    contents: Seq<char>,
    from_text: bool,
    env: EnvironmentView,
)
    ensures
        budget(fresh_operation(kind, subject, dest, contents, from_text, env)) <= 3 * (2
            * env.config.max_symlink_depth + 3) + 5,
{
    let op = fresh_operation(kind, subject, dest, contents, from_text, env);
    let per_check = 2 * env.config.max_symlink_depth + 3;
    let n = op.pending.len() as int;
    assert(n <= 3);
    assert(n * per_check <= 3 * per_check) by (nonlinear_arith)
        requires
            0 <= n <= 3,
            0 <= per_check,
    ;
}

/// The temporary sibling of a write is another path than its target, for
/// every target with a file name whose extension is not `tmp`: a write
/// that is interrupted before the rename leaves such a target as it was.
pub proof fn lemma_temp_sibling_is_another_path(subject: Seq<char>)
    requires
        file_name(subject) is Some,
        extension(subject) != Some("tmp"@),
    ensures
        temp_sibling(subject) != subject,
{
    reveal_strlit("tmp");
    let ext = "tmp"@;
    assert(!ext.contains('/')) by {
        if ext.contains('/') {
            let i = choose|i: int| 0 <= i < ext.len() && ext[i] == '/';
            assert(ext[i] != '/');
        }
    }
    lemma_new_extension_changes_path(subject, ext);
}

/// A write never writes to its target. The text goes to the temporary
/// sibling; the rename onto the target is asked for only when that write
/// is done; and where it failed, the operation ends with that failure and
/// the target is not touched.
pub proof fn lemma_write_is_atomic(op: OperationView, event: EventView, links: Links)
    requires
        sound(op, links),
        faithful(op, event, links),
        op.kind == OpKind::WriteString,
    ensures
        op_step(op, event).1 matches ActionView::WriteSynced(to, text) ==> to == temp_sibling(
            op.subject,
        ) && text == op.contents && op_step(op, event).0.stage == Stage::AwaitTemp,
        op_step(op, event).1 matches ActionView::Rename(from, to) ==> op.stage == Stage::AwaitTemp
            && event == EventView::Done && from == temp_sibling(op.subject) && to == op.subject,
        op.stage == Stage::AwaitTemp && event is Failed ==> op_step(op, event).1
            == ActionView::Finish(Err(ErrorView::Io(event->Failed_0))),
        !(op_step(op, event).1 is CreateNew),
        !(op_step(op, event).1 is Copy),
        !(op_step(op, event).1 is RemoveFile),
        !(op_step(op, event).1 is RemoveDirAll),
{
    lemma_step(op, event, links);
}

/// The files of a filesystem by the text of their paths, each with its
/// content: enough of a filesystem to say what a write leaves behind.
pub type Store = Map<Seq<char>, Seq<char>>;

/// The files after `text` was written to `path`.
pub open spec fn after_write(store: Store, path: Seq<char>, text: Seq<char>) -> Store {
    store.insert(path, text)
}

/// The files after `from` was renamed onto `to`.
pub open spec fn after_rename(store: Store, from: Seq<char>, to: Seq<char>) -> Store {
    if store.dom().contains(from) {
        store.remove(from).insert(to, store[from])
    } else {
        store
    }
}

/// A write is all or nothing. Once the temporary sibling is written, the
/// target is still as it was before, for every target with a file name
/// whose extension is not `tmp`; the one step that is left renames the
/// sibling onto the target, and after it the target holds exactly the
/// text that was to be written, no sibling is left, and the operation
/// ends.
pub proof fn lemma_write_is_all_or_nothing(op: OperationView, before: Store)
    requires
        op.kind == OpKind::WriteString,
        op.stage == Stage::AwaitTemp,
    ensures
        ({
            let sibling = temp_sibling(op.subject);
            let written = after_write(before, sibling, op.contents);
            let after = after_rename(written, sibling, op.subject);
            &&& file_name(op.subject) is Some && extension(op.subject) != Some("tmp"@) ==> {
                &&& written.dom().contains(op.subject) == before.dom().contains(op.subject)
                &&& before.dom().contains(op.subject) ==> written[op.subject]
                    == before[op.subject]
            }
            &&& op_step(op, EventView::Done).1 == ActionView::Rename(sibling, op.subject)
            &&& after.dom().contains(op.subject)
            &&& after[op.subject] == op.contents
            &&& sibling != op.subject ==> !after.dom().contains(sibling)
            &&& op_step(op_step(op, EventView::Done).0, EventView::Done).1 == ActionView::Finish(
                Ok(ValueView::Unit),
            )
        }),
{
    if file_name(op.subject) is Some && extension(op.subject) != Some("tmp"@) {
        lemma_temp_sibling_is_another_path(op.subject);
    }
}

/// A creation never clobbers. The file is created by the call that fails
/// where the path exists, and by no other; where that call reports that
/// the file exists, the operation ends with that failure.
pub proof fn lemma_create_does_not_clobber(op: OperationView, event: EventView, links: Links)
    requires
        sound(op, links),
        faithful(op, event, links),
        op.kind == OpKind::CreateFile,
    ensures
        changes(op_step(op, event).1) ==> op_step(op, event).1 == ActionView::CreateNew(op.subject)
            || op_step(op, event).1 is CreateDirAll,
        op.stage == Stage::AwaitCreated && event is Failed && event->Failed_0.kind
            == IoKind::AlreadyExists ==> op_step(op, event).1 == ActionView::Finish(
            Err(already_exists(op.subject)),
        ),
{
    lemma_step(op, event, links);
}

/// A path is reported empty only on the filesystem's word: a file whose
/// length is zero, or a directory that holds no entry. No other answer,
/// and no failure, makes a path empty.
pub proof fn lemma_empty_is_the_filesystems_word(
    op: OperationView,
    event: EventView,
    links: Links,
)
    requires
        sound(op, links),
        faithful(op, event, links),
        op.kind == OpKind::IsEmpty,
        op_step(op, event).1 == ActionView::Finish(Ok(ValueView::Flag(true))),
    ensures
        (op.stage == Stage::AwaitLength && event == EventView::Number(0)) || (op.stage
            == Stage::AwaitFlag && event == EventView::Flag(true)),
{
    lemma_step(op, event, links);
}

} // verus!
