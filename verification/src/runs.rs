//! Whole runs of an operation, from its first step to its outcome, over a
//! model of the filesystem: what a creation and a write leave behind
//! when every answer is the filesystem's own.
//!
//! The model knows symbolic links and regular files, each by the text of
//! its path, and a set of changes that the filesystem refuses. It knows
//! no directories: their creation succeeds and leaves the files as they
//! are.

use vstd::prelude::*;

use crate::environment::EnvironmentView;
use crate::error::{ErrorView, IoFailureView, IoKind};
use crate::grammar::parent;
use crate::operations::{
    act, already_exists, checks_for, fresh_operation, next_check, op_step, temp_sibling, OpKind,
    OperationView, Stage,
};
use crate::protocol::{ActionView, EventView, OutcomeView, ValueView};
use crate::soundness::{
    after_rename, after_write, budget, lemma_step_spends_budget, validated, Links, Store,
};
use crate::symlinks::{fresh_walk, walk_outcome, walk_step, CycleWalkView, WalkStage};

verus! {

/// A filesystem, as far as a creation or a write meets it.
pub struct World {
    /// The symbolic links: each key is a link, its value where it points.
    pub links: Links,
    /// The regular files, each with its content.
    pub files: Store,
    /// The changes that the filesystem refuses, for whatever reason.
    pub refused: Set<ActionView>,
}

/// The failure of a change that the filesystem refuses.
pub open spec fn refusal() -> IoFailureView {
    IoFailureView { kind: IoKind::Other, message: "refused"@ }
}

/// The failure of a call on a path that does not exist.
pub open spec fn missing() -> IoFailureView {
    IoFailureView { kind: IoKind::NotFound, message: "no such file"@ }
}

/// The failure of a creation on a path that exists.
pub open spec fn in_the_way() -> IoFailureView {
    IoFailureView { kind: IoKind::AlreadyExists, message: "file exists"@ }
}

/// What the filesystem answers to a change that it does not refuse, and
/// to a read. A creation fails where a file or a link has the name; a
/// write through a link, and what the model does not know, is refused.
pub open spec fn served(world: World, action: ActionView) -> EventView {
    match action {
        ActionView::CreateDirAll(_) => EventView::Done,
        ActionView::CreateNew(path) => if world.files.dom().contains(path)
            || world.links.dom().contains(path) {
            EventView::Failed(in_the_way())
        } else {
            EventView::Done
        },
        ActionView::WriteSynced(path, _) => if world.links.dom().contains(path) {
            EventView::Failed(refusal())
        } else {
            EventView::Done
        },
        ActionView::Rename(from, _) => if world.files.dom().contains(from) {
            EventView::Done
        } else {
            EventView::Failed(missing())
        },
        ActionView::ReadToString(path) => if world.links.dom().contains(path) {
            EventView::Failed(refusal())
        } else if world.files.dom().contains(path) {
            EventView::Text(world.files[path])
        } else {
            EventView::Failed(missing())
        },
        _ => EventView::Failed(refusal()),
    }
}

/// The filesystem's answer to an action.
pub open spec fn answer(world: World, action: ActionView) -> EventView {
    match action {
        ActionView::IsSymlink(path) => EventView::Flag(world.links.dom().contains(path)),
        ActionView::ReadLink(path) => if world.links.dom().contains(path) {
            EventView::Path(world.links[path])
        } else {
            EventView::Failed(missing())
        },
        _ => if world.refused.contains(action) {
            EventView::Failed(refusal())
        } else {
            served(world, action)
        },
    }
}

/// The filesystem after an action: a change that was carried out is
/// made, and nothing else is. A rename puts the file in the place of
/// whatever had the name, a link too.
pub open spec fn effect(world: World, action: ActionView) -> World {
    if answer(world, action) == EventView::Done {
        match action {
            ActionView::CreateNew(path) => World {
                files: world.files.insert(path, Seq::empty()),
                ..world
            },
            ActionView::WriteSynced(path, text) => World {
                files: after_write(world.files, path, text),
                ..world
            },
            ActionView::Rename(from, to) => World {
                files: after_rename(world.files, from, to),
                links: world.links.remove(to),
                ..world
            },
            _ => world,
        }
    } else {
        world
    }
}

/// The rest of a run: from an operation that has asked for an action, to
/// its outcome and the filesystem that it leaves.
pub open spec fn resume(state: (OperationView, ActionView), world: World) -> (OutcomeView, World)
    decreases budget(state.0),
{
    match state.1 {
        ActionView::Finish(outcome) => (outcome, world),
        action => {
            let next = op_step(state.0, answer(world, action));
            let after = effect(world, action);
            match next.1 {
                ActionView::Finish(outcome) => (outcome, after),
                _ => {
                    proof {
                        lemma_step_spends_budget(state.0, answer(world, action));
                        lemma_step_spends_budget(next.0, answer(world, action));
                    }
                    resume(next, after)
                },
            }
        },
    }
}

/// A whole run: the outcome of an operation and the filesystem that it
/// leaves, when every answer is the filesystem's.
pub open spec fn run(op: OperationView, world: World) -> (OutcomeView, World) {
    resume(op_step(op, EventView::Start), world)
}

/// The state in which a walk ends over `links`.
pub open spec fn walked_out(walk: CycleWalkView, links: Links) -> CycleWalkView
    decreases walk.limit - walk.followed,
{
    let probed = walk_step(walk, EventView::Flag(links.dom().contains(walk.current)));
    match probed.1 {
        ActionView::ReadLink(link) => {
            let read = walk_step(probed.0, EventView::Path(links[link]));
            if walk.followed < walk.limit && read.0.followed == walk.followed + 1 && read.0.limit
                == walk.limit {
                walked_out(read.0, links)
            } else {
                probed.0
            }
        },
        _ => probed.0,
    }
}

/// One more answer of a run.
proof fn lemma_resume_once(state: (OperationView, ActionView), world: World)
    requires
        !(state.1 is Finish),
    ensures
        resume(state, world) == resume(
            op_step(state.0, answer(world, state.1)),
            effect(world, state.1),
        ),
{
    let next = op_step(state.0, answer(world, state.1));
    let after = effect(world, state.1);
    assert(resume(next, after) == match next.1 {
        ActionView::Finish(outcome) => (outcome, after),
        _ => resume(next, after),
    });
}

/// A run comes through a check whose walk passes: it goes on with the
/// next check, the filesystem untouched.
proof fn lemma_resume_through_walk(op: OperationView, world: World)
    requires
        op.stage == Stage::Checking,
        op.walk.stage == WalkStage::Probing,
        walk_outcome(op.walk, world.links) is Ok,
    ensures
        resume((op, ActionView::IsSymlink(op.walk.current)), world) == resume(
            next_check(OperationView { walk: walked_out(op.walk, world.links), ..op }),
            world,
        ),
    decreases op.walk.limit - op.walk.followed,
{
    let asked = (op, ActionView::IsSymlink(op.walk.current));
    lemma_resume_once(asked, world);
    let is_link = world.links.dom().contains(op.walk.current);
    let probed = op_step(op, EventView::Flag(is_link));
    assert(effect(world, asked.1) == world);
    if is_link {
        lemma_resume_once(probed, world);
        let target = world.links[op.walk.current];
        let read = op_step(probed.0, EventView::Path(target));
        assert(effect(world, probed.1) == world);
        assert(read.1 == ActionView::IsSymlink(read.0.walk.current));
        lemma_resume_through_walk(read.0, world);
        assert(OperationView { walk: walked_out(read.0.walk, world.links), ..read.0 }
            == OperationView { walk: walked_out(op.walk, world.links), ..op });
    }
}

/// The operation when all its pending checks have passed.
pub open spec fn after_checks(op: OperationView, links: Links) -> OperationView
    decreases op.pending.len(),
{
    if op.pending.len() == 0 {
        op
    } else {
        let begun = walk_step(
            fresh_walk(op.pending[0], op.env.config.max_symlink_depth, op.env.detail, op.env.separators),
            EventView::Start,
        ).0;
        after_checks(
            OperationView {
                stage: Stage::Checking,
                pending: op.pending.drop_first(),
                walk: walked_out(begun, links),
                ..op
            },
            links,
        )
    }
}

/// The checks change nothing of what the operation is about.
proof fn lemma_after_checks(op: OperationView, links: Links)
    ensures
        after_checks(op, links).kind == op.kind,
        after_checks(op, links).env == op.env,
        after_checks(op, links).subject == op.subject,
        after_checks(op, links).dest == op.dest,
        after_checks(op, links).contents == op.contents,
    decreases op.pending.len(),
{
    if op.pending.len() > 0 {
        let begun = walk_step(
            fresh_walk(op.pending[0], op.env.config.max_symlink_depth, op.env.detail, op.env.separators),
            EventView::Start,
        ).0;
        lemma_after_checks(
            OperationView {
                stage: Stage::Checking,
                pending: op.pending.drop_first(),
                walk: walked_out(begun, links),
                ..op
            },
            links,
        );
    }
}

/// A run comes through all checks that pass: it goes on with the
/// operation's first call, the filesystem untouched.
proof fn lemma_resume_through_checks(op: OperationView, world: World)
    requires
        forall|i: int|
            0 <= i < op.pending.len() ==> validated(#[trigger] op.pending[i], op.env, world.links),
    ensures
        resume(next_check(op), world) == resume(act(after_checks(op, world.links)), world),
    decreases op.pending.len(),
{
    if op.pending.len() > 0 {
        let path = op.pending[0];
        assert(validated(path, op.env, world.links));
        let begun = walk_step(
            fresh_walk(path, op.env.config.max_symlink_depth, op.env.detail, op.env.separators),
            EventView::Start,
        ).0;
        let checking = OperationView {
            stage: Stage::Checking,
            pending: op.pending.drop_first(),
            walk: begun,
            ..op
        };
        assert(next_check(op) == (checking, ActionView::IsSymlink(begun.current)));
        lemma_resume_through_walk(checking, world);
        let passed = OperationView { walk: walked_out(begun, world.links), ..checking };
        assert forall|i: int| 0 <= i < passed.pending.len() implies validated(
            #[trigger] passed.pending[i],
            passed.env,
            world.links,
        ) by {
            assert(passed.pending[i] == op.pending[i + 1]);
        }
        lemma_resume_through_checks(passed, world);
    }
}

/// A run that begins with checks that all pass goes on with the
/// operation's first call.
proof fn lemma_run_through_checks(
    kind: OpKind,
    subject: Seq<char>,
    dest: Seq<char>,
    contents: Seq<char>,
    from_text: bool,
    env: EnvironmentView,
    world: World,
)
    requires
        forall|i: int|
            0 <= i < checks_for(kind, subject, dest, from_text).len() ==> validated(
                #[trigger] checks_for(kind, subject, dest, from_text)[i],
                env,
                world.links,
            ),
    ensures
        ({
            let op = fresh_operation(kind, subject, dest, contents, from_text, env);
            let ready = after_checks(op, world.links);
            &&& run(op, world) == resume(act(ready), world)
            &&& ready.kind == kind
            &&& ready.env == env
            &&& ready.subject == subject
            &&& ready.dest == dest
            &&& ready.contents == contents
        }),
{
    let op = fresh_operation(kind, subject, dest, contents, from_text, env);
    lemma_resume_through_checks(op, world);
    lemma_after_checks(op, world.links);
}

/// Nothing is refused for its own sake.
pub open spec fn serves_all(world: World) -> bool {
    forall|action: ActionView| !world.refused.contains(action)
}

/// A creation on a path that names an existing file fails with
/// `AlreadyExists`, and leaves every file as it was: nothing is written.
/// This holds for every path that passes both checks with its parent,
/// through whatever links, on a filesystem that refuses no change for its
/// own sake.
pub proof fn lemma_create_on_existing_file_fails(
    subject: Seq<char>,
    dest: Seq<char>,
    contents: Seq<char>,
    from_text: bool,
    env: EnvironmentView,
    world: World,
)
    requires
        world.files.dom().contains(subject),
        serves_all(world),
        forall|i: int|
            0 <= i < checks_for(OpKind::CreateFile, subject, dest, from_text).len() ==> validated(
                #[trigger] checks_for(OpKind::CreateFile, subject, dest, from_text)[i],
                env,
                world.links,
            ),
    ensures
        run(
            fresh_operation(OpKind::CreateFile, subject, dest, contents, from_text, env),
            world,
        ) == (Err::<ValueView, ErrorView>(already_exists(subject)), world),
{
    let op = fresh_operation(OpKind::CreateFile, subject, dest, contents, from_text, env);
    lemma_run_through_checks(OpKind::CreateFile, subject, dest, contents, from_text, env, world);
    let ready = after_checks(op, world.links);
    let first = act(ready);
    let create = ActionView::CreateNew(subject);
    assert(!world.refused.contains(create));
    match parent(subject) {
        Some(up) => {
            assert(!world.refused.contains(ActionView::CreateDirAll(up)));
            lemma_resume_once(first, world);
            let second = op_step(first.0, EventView::Done);
            assert(second.1 == create);
            lemma_resume_once(second, world);
        },
        None => {
            assert(first.1 == create);
            lemma_resume_once(first, world);
        },
    }
}

/// A creation on a path that names nothing makes an empty file there
/// and changes nothing else; a second creation on the same path then
/// fails with `AlreadyExists` and leaves the file as the first made it.
pub proof fn lemma_second_create_fails(
    subject: Seq<char>,
    dest: Seq<char>,
    contents: Seq<char>,
    from_text: bool,
    env: EnvironmentView,
    world: World,
)
    requires
        !world.files.dom().contains(subject),
        !world.links.dom().contains(subject),
        serves_all(world),
        forall|i: int|
            0 <= i < checks_for(OpKind::CreateFile, subject, dest, from_text).len() ==> validated(
                #[trigger] checks_for(OpKind::CreateFile, subject, dest, from_text)[i],
                env,
                world.links,
            ),
    ensures
        ({
            let op = fresh_operation(OpKind::CreateFile, subject, dest, contents, from_text, env);
            let made = World { files: world.files.insert(subject, Seq::empty()), ..world };
            &&& run(op, world) == (Ok::<ValueView, ErrorView>(ValueView::Unit), made)
            &&& run(op, made) == (Err::<ValueView, ErrorView>(already_exists(subject)), made)
        }),
{
    let op = fresh_operation(OpKind::CreateFile, subject, dest, contents, from_text, env);
    let made = World { files: world.files.insert(subject, Seq::empty()), ..world };
    lemma_run_through_checks(OpKind::CreateFile, subject, dest, contents, from_text, env, world);
    let first = act(after_checks(op, world.links));
    let create = ActionView::CreateNew(subject);
    assert(!world.refused.contains(create));
    match parent(subject) {
        Some(up) => {
            assert(!world.refused.contains(ActionView::CreateDirAll(up)));
            lemma_resume_once(first, world);
            let second = op_step(first.0, EventView::Done);
            assert(second.1 == create);
            lemma_resume_once(second, world);
        },
        None => {
            assert(first.1 == create);
            lemma_resume_once(first, world);
        },
    }
    lemma_create_on_existing_file_fails(subject, dest, contents, from_text, env, made);
}

/// A write is all or nothing, for whole runs. On every path that passes
/// both checks with its parent, through whatever links:
/// a write that succeeds leaves the target as a regular file that holds
/// exactly the text, whatever it held before, and no sibling behind; a
/// write that fails leaves the target as it was, where the sibling is
/// another path than the target; and the write succeeds exactly where
/// the filesystem takes its three changes.
pub proof fn lemma_write_leaves_exactly_the_contents(
    subject: Seq<char>,
    dest: Seq<char>,
    contents: Seq<char>,
    from_text: bool,
    env: EnvironmentView,
    world: World,
)
    requires
        forall|i: int|
            0 <= i < checks_for(OpKind::WriteString, subject, dest, from_text).len() ==> validated(
                #[trigger] checks_for(OpKind::WriteString, subject, dest, from_text)[i],
                env,
                world.links,
            ),
    ensures
        ({
            let ran = run(
                fresh_operation(OpKind::WriteString, subject, dest, contents, from_text, env),
                world,
            );
            let sibling = temp_sibling(subject);
            &&& ran.0 is Ok ==> {
                &&& ran.0 == Ok::<ValueView, ErrorView>(ValueView::Unit)
                &&& ran.1.files.dom().contains(subject)
                &&& ran.1.files[subject] == contents
                &&& !ran.1.links.dom().contains(subject)
                &&& sibling != subject ==> !ran.1.files.dom().contains(sibling)
                &&& ran.1 == written_world(world, subject, contents)
            }
            &&& ran.0 is Err && sibling != subject ==> {
                &&& ran.1.links == world.links
                &&& ran.1.files.dom().contains(subject) == world.files.dom().contains(subject)
                &&& world.files.dom().contains(subject) ==> ran.1.files[subject]
                    == world.files[subject]
            }
            &&& ran.0 is Ok <==> takes_write(world, subject, contents)
        }),
{
    let op = fresh_operation(OpKind::WriteString, subject, dest, contents, from_text, env);
    lemma_run_through_checks(OpKind::WriteString, subject, dest, contents, from_text, env, world);
    let ready = after_checks(op, world.links);
    let sibling = temp_sibling(subject);
    let write = ActionView::WriteSynced(sibling, contents);
    let rename = ActionView::Rename(sibling, subject);
    let first = act(ready);
    lemma_resume_once(first, world);
    let writing = match parent(subject) {
        Some(up) => op_step(first.0, answer(world, first.1)),
        None => first,
    };
    if writing.1 == write {
        if parent(subject) is Some {
            lemma_resume_once(writing, world);
        }
        let renaming = op_step(writing.0, answer(world, write));
        let written = effect(world, write);
        if renaming.1 == rename {
            assert(written.files.dom().contains(sibling));
            lemma_resume_once(renaming, written);
        }
    }
}

/// Whether the filesystem takes the changes of a write: the creation of
/// the parent directories, the write of the sibling, which is no link,
/// and the rename.
pub open spec fn takes_write(world: World, subject: Seq<char>, contents: Seq<char>) -> bool {
    &&& parent(subject) matches Some(up) ==> !world.refused.contains(ActionView::CreateDirAll(up))
    &&& !world.refused.contains(ActionView::WriteSynced(temp_sibling(subject), contents))
    &&& !world.links.dom().contains(temp_sibling(subject))
    &&& !world.refused.contains(ActionView::Rename(temp_sibling(subject), subject))
}

/// The filesystem after a write that succeeded.
pub open spec fn written_world(world: World, subject: Seq<char>, contents: Seq<char>) -> World {
    World {
        files: after_rename(
            after_write(world.files, temp_sibling(subject), contents),
            temp_sibling(subject),
            subject,
        ),
        links: world.links.remove(subject),
        ..world
    }
}

/// A walk that passes still passes when a link is gone.
proof fn lemma_walk_survives_unlink(walk: CycleWalkView, links: Links, gone: Seq<char>)
    requires
        walk.stage == WalkStage::Probing,
        walk_outcome(walk, links) is Ok,
    ensures
        walk_outcome(walk, links.remove(gone)) is Ok,
    decreases walk.limit - walk.followed,
{
    let fewer = links.remove(gone);
    if fewer.dom().contains(walk.current) {
        assert(links.dom().contains(walk.current));
        assert(fewer[walk.current] == links[walk.current]);
        let probed = walk_step(walk, EventView::Flag(true));
        let read = walk_step(probed.0, EventView::Path(links[walk.current]));
        lemma_walk_survives_unlink(read.0, links, gone);
    }
}

/// A path that passes both checks still passes when a link is gone.
pub proof fn lemma_validation_survives_unlink(
    path: Seq<char>,
    env: EnvironmentView,
    links: Links,
    gone: Seq<char>,
)
    requires
        validated(path, env, links),
    ensures
        validated(path, env, links.remove(gone)),
{
    let begun = walk_step(
        fresh_walk(path, env.config.max_symlink_depth, env.detail, env.separators),
        EventView::Start,
    ).0;
    lemma_walk_survives_unlink(begun, links, gone);
}

/// A second write of the same text changes nothing. After a write that
/// succeeded, and with nothing else done to the filesystem, the same
/// write succeeds again and leaves the filesystem as the first did: the
/// target holds the same text, and the same files and links are there.
pub proof fn lemma_second_write_changes_nothing(
    subject: Seq<char>,
    dest: Seq<char>,
    contents: Seq<char>,
    from_text: bool,
    env: EnvironmentView,
    world: World,
)
    requires
        forall|i: int|
            0 <= i < checks_for(OpKind::WriteString, subject, dest, from_text).len() ==> validated(
                #[trigger] checks_for(OpKind::WriteString, subject, dest, from_text)[i],
                env,
                world.links,
            ),
        run(
            fresh_operation(OpKind::WriteString, subject, dest, contents, from_text, env),
            world,
        ).0 is Ok,
    ensures
        ({
            let op = fresh_operation(OpKind::WriteString, subject, dest, contents, from_text, env);
            let first = run(op, world);
            let second = run(op, first.1);
            &&& second.0 == Ok::<ValueView, ErrorView>(ValueView::Unit)
            &&& second.1 == first.1
            &&& second.1.files[subject] == contents
        }),
{
    let op = fresh_operation(OpKind::WriteString, subject, dest, contents, from_text, env);
    let checks = checks_for(OpKind::WriteString, subject, dest, from_text);
    lemma_write_leaves_exactly_the_contents(subject, dest, contents, from_text, env, world);
    let first = run(op, world);
    assert forall|i: int| 0 <= i < checks.len() implies validated(
        #[trigger] checks[i],
        env,
        first.1.links,
    ) by {
        lemma_validation_survives_unlink(checks[i], env, world.links, subject);
    }
    lemma_write_leaves_exactly_the_contents(subject, dest, contents, from_text, env, first.1);
    let second = run(op, first.1);
    assert(takes_write(first.1, subject, contents));
    assert(second.1.files =~= first.1.files);
    assert(second.1.links =~= first.1.links);
}

/// What was written is what is read. After a write that succeeded, a read
/// of the same path yields exactly the text that was written, and
/// changes nothing.
pub proof fn lemma_read_returns_what_was_written(
    subject: Seq<char>,
    dest: Seq<char>,
    contents: Seq<char>,
    from_text: bool,
    env: EnvironmentView,
    world: World,
)
    requires
        forall|i: int|
            0 <= i < checks_for(OpKind::WriteString, subject, dest, from_text).len() ==> validated(
                #[trigger] checks_for(OpKind::WriteString, subject, dest, from_text)[i],
                env,
                world.links,
            ),
        run(
            fresh_operation(OpKind::WriteString, subject, dest, contents, from_text, env),
            world,
        ).0 is Ok,
        !world.refused.contains(ActionView::ReadToString(subject)),
    ensures
        ({
            let written = run(
                fresh_operation(OpKind::WriteString, subject, dest, contents, from_text, env),
                world,
            ).1;
            run(
                fresh_operation(OpKind::ReadToString, subject, dest, Seq::empty(), from_text, env),
                written,
            ) == (Ok::<ValueView, ErrorView>(ValueView::Text(contents)), written)
        }),
{
    lemma_write_leaves_exactly_the_contents(subject, dest, contents, from_text, env, world);
    let written = run(
        fresh_operation(OpKind::WriteString, subject, dest, contents, from_text, env),
        world,
    ).1;
    let checks = checks_for(OpKind::WriteString, subject, dest, from_text);
    let reads = checks_for(OpKind::ReadToString, subject, dest, from_text);
    assert forall|i: int| 0 <= i < reads.len() implies validated(
        #[trigger] reads[i],
        env,
        written.links,
    ) by {
        assert(reads[i] == subject);
        assert(checks[0] == subject);
        lemma_validation_survives_unlink(checks[0], env, world.links, subject);
    }
    lemma_run_through_checks(
        OpKind::ReadToString,
        subject,
        dest,
        Seq::empty(),
        from_text,
        env,
        written,
    );
    let op = fresh_operation(OpKind::ReadToString, subject, dest, Seq::empty(), from_text, env);
    lemma_resume_once(act(after_checks(op, written.links)), written);
}

} // verus!
