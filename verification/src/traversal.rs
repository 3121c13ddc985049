//! The traversal check: a path may not have more components than the limit
//! allows, and its absolute form may never climb above the root.

use vstd::prelude::*;
use vstd::string::StringExecFns;

use crate::environment::{
    sanitize_path_for_error, sanitized, Environment, EnvironmentView, ErrorDetail,
};
use crate::error::{verdict_view, ErrorView, SoftPathError};
use crate::grammar::{
    appended_components, components, is_absolute, join, kinds_of, lemma_join_appends_components,
    lemma_kinds_of_concat, slashed, ComponentKind,
};
use crate::path::SoftPath;

verus! {

/// The net depth below the root after walking `kinds`: a name goes one
/// level down, `..` one level up, the root marker back to the root, and
/// `.` nowhere.
pub open spec fn depth_after(kinds: Seq<ComponentKind>) -> int
    decreases kinds.len(),
{
    if kinds.len() == 0 {
        0
    } else {
        let before = depth_after(kinds.drop_last());
        match kinds.last() {
            ComponentKind::RootDir => 0,
            ComponentKind::CurDir => before,
            ComponentKind::ParentDir => before - 1,
            ComponentKind::Normal => before + 1,
        }
    }
}

/// Whether the walk ever stands above the root.
pub open spec fn escapes_root(kinds: Seq<ComponentKind>) -> bool {
    exists|n: int| 0 < n <= kinds.len() && #[trigger] depth_after(kinds.take(n)) < 0
}

/// The verdict on a path that is already in absolute form.
pub open spec fn root_verdict(absolute: Seq<char>, detail: ErrorDetail) -> Result<(), ErrorView> {
    if escapes_root(kinds_of(components(absolute))) {
        Err(ErrorView::PathTraversal(sanitized(absolute, detail)))
    } else {
        Ok(())
    }
}

/// The path as the check reads it: in the library's own writing, by the
/// environment's rule for separators.
pub open spec fn read_as(path: Seq<char>, env: EnvironmentView) -> Seq<char> {
    slashed(path, env.separators)
}

/// The form of a path that the walk is made on: an absolute path as it
/// is, a relative one behind the working directory.
pub open spec fn absolute_form(path: Seq<char>, env: EnvironmentView) -> Seq<char> {
    match env.cwd {
        Ok(cwd) => join(read_as(cwd, env), read_as(path, env)),
        Err(_) => read_as(path, env),
    }
}

/// Whether the absolute form of a path can be had: a relative path needs
/// the working directory.
pub open spec fn can_be_placed(path: Seq<char>, env: EnvironmentView) -> bool {
    is_absolute(read_as(path, env)) || env.cwd is Ok
}

/// The verdict of the traversal check. The path is read by the
/// environment's rule for separators. The checks come in this order: a NUL
/// character, the number of components, the working directory where the
/// path is relative, the walk of the absolute form.
pub open spec fn traversal_verdict(path: Seq<char>, env: EnvironmentView) -> Result<
    (),
    ErrorView,
> {
    if read_as(path, env).contains('\0') {
        Err(ErrorView::InvalidPath("Path contains null bytes"@))
    } else if components(read_as(path, env)).len() > env.config.max_path_depth {
        Err(ErrorView::PathDepthExceeded(env.config.max_path_depth))
    } else {
        match env.cwd {
            Err(failure) if !is_absolute(read_as(path, env)) => Err(ErrorView::Io(failure)),
            _ => root_verdict(absolute_form(path, env), env.detail),
        }
    }
}

/// Whether a walk over `kinds` ever stands above the root.
fn walk_escapes(kinds: &Vec<ComponentKind>) -> (escapes: bool)
    ensures
        escapes == escapes_root(kinds@),
{
    let mut depth: usize = 0;
    let mut i: usize = 0;
    assert(kinds@.take(0) =~= Seq::<ComponentKind>::empty());
    while i < kinds.len()
        invariant
            i <= kinds.len(),
            depth <= i,
            depth == depth_after(kinds@.take(i as int)),
            forall|n: int| 0 < n <= i ==> #[trigger] depth_after(kinds@.take(n)) >= 0,
        decreases kinds.len() - i,
    {
        assert(kinds@.take(i + 1).drop_last() =~= kinds@.take(i as int));
        match kinds[i] {
            ComponentKind::ParentDir => {
                if depth == 0 {
                    assert(depth_after(kinds@.take(i + 1)) < 0);
                    return true;
                }
                depth -= 1;
            },
            ComponentKind::Normal => {
                depth += 1;
            },
            ComponentKind::RootDir => {
                depth = 0;
            },
            ComponentKind::CurDir => {},
        }
        i += 1;
    }
    false
}

/// The traversal check on a path in absolute form.
fn check_absolute(absolute: &SoftPath, detail: ErrorDetail) -> (verdict: Result<
    (),
    SoftPathError,
>)
    ensures
        verdict_view(verdict) == root_verdict(absolute@, detail),
{
    let kinds = absolute.component_kinds();
    if walk_escapes(&kinds) {
        Err(SoftPathError::PathTraversal(sanitize_path_for_error(absolute, detail)))
    } else {
        Ok(())
    }
}

/// Checks that a path has no more components than the limit allows and
/// that its absolute form never climbs above the root.
pub fn check_path_traversal(path: &SoftPath, env: &Environment) -> (verdict: Result<
    (),
    SoftPathError,
>)
    ensures
        verdict_view(verdict) == traversal_verdict(path@, env@),
{
    let path = path.slashed(env.separators);
    if path.has_nul() {
        return Err(SoftPathError::InvalidPath(String::from_str("Path contains null bytes")));
    }
    let kinds = path.component_kinds();
    if kinds.len() > env.config.max_path_depth {
        return Err(SoftPathError::PathDepthExceeded(env.config.max_path_depth));
    }
    match &env.cwd {
        Err(failure) => {
            if path.is_absolute() {
                check_absolute(&path, env.detail)
            } else {
                Err(SoftPathError::Io(failure.duplicate()))
            }
        },
        Ok(cwd) => {
            let absolute = cwd.slashed(env.separators).join(&path);
            check_absolute(&absolute, env.detail)
        },
    }
}

/// A path without a NUL character, with no more components than the limit
/// allows, whose walk never stands above the root, passes the traversal
/// check.
pub proof fn lemma_safe_path_passes(path: Seq<char>, env: EnvironmentView)
    requires
        !read_as(path, env).contains('\0'),
        can_be_placed(path, env),
        components(read_as(path, env)).len() <= env.config.max_path_depth,
        !escapes_root(kinds_of(components(absolute_form(path, env)))),
    ensures
        traversal_verdict(path, env) is Ok,
{
}

/// A path whose walk stands above the root at some point is rejected as a
/// traversal attempt, where it is not rejected before the walk for a NUL
/// character or for its number of components.
pub proof fn lemma_escape_is_rejected(path: Seq<char>, env: EnvironmentView)
    requires
        !read_as(path, env).contains('\0'),
        can_be_placed(path, env),
        components(read_as(path, env)).len() <= env.config.max_path_depth,
        escapes_root(kinds_of(components(absolute_form(path, env)))),
    ensures
        traversal_verdict(path, env) == Err::<(), ErrorView>(
            ErrorView::PathTraversal(sanitized(absolute_form(path, env), env.detail)),
        ),
{
}

/// A path with more components than the limit allows is rejected, and the
/// rejection reports the limit.
pub proof fn lemma_deep_path_is_rejected(path: Seq<char>, env: EnvironmentView)
    requires
        !read_as(path, env).contains('\0'),
        components(read_as(path, env)).len() > env.config.max_path_depth,
    ensures
        traversal_verdict(path, env) == Err::<(), ErrorView>(
            ErrorView::PathDepthExceeded(env.config.max_path_depth),
        ),
{
}

/// A walk that stands above the root stays an escape however the path goes
/// on.
pub proof fn lemma_escape_is_final(kinds: Seq<ComponentKind>, more: Seq<ComponentKind>)
    requires
        escapes_root(kinds),
    ensures
        escapes_root(kinds + more),
{
    let n = choose|n: int| 0 < n <= kinds.len() && #[trigger] depth_after(kinds.take(n)) < 0;
    assert((kinds + more).take(n) =~= kinds.take(n));
}

/// The depth after `count` more steps up.
pub proof fn lemma_depth_after_climb(kinds: Seq<ComponentKind>, count: nat)
    ensures
        depth_after(kinds + Seq::new(count, |i: int| ComponentKind::ParentDir)) == depth_after(
            kinds,
        ) - count,
    decreases count,
{
    let ups = Seq::new(count, |i: int| ComponentKind::ParentDir);
    if count == 0 {
        assert(kinds + ups =~= kinds);
    } else {
        let fewer = Seq::new((count - 1) as nat, |i: int| ComponentKind::ParentDir);
        assert((kinds + ups).drop_last() =~= kinds + fewer);
        lemma_depth_after_climb(kinds, (count - 1) as nat);
    }
}

/// More steps up than the walk stands below the root are an escape.
pub proof fn lemma_climb_escapes(kinds: Seq<ComponentKind>, count: nat)
    requires
        count > depth_after(kinds),
    ensures
        escapes_root(kinds + Seq::new(count, |i: int| ComponentKind::ParentDir)),
{
    let ups = Seq::new(count, |i: int| ComponentKind::ParentDir);
    let all = kinds + ups;
    if depth_after(kinds) < 0 {
        if kinds.len() == 0 {
            assert(depth_after(kinds) == 0);
        } else {
            assert(all.take(kinds.len() as int) =~= kinds);
        }
    } else {
        let needed = (depth_after(kinds) + 1) as nat;
        let some = Seq::new(needed, |i: int| ComponentKind::ParentDir);
        lemma_depth_after_climb(kinds, needed);
        assert(all.take((kinds.len() + needed) as int) =~= kinds + some);
    }
}

/// A relative path that begins with more `..` than the working directory
/// is deep is rejected as a traversal attempt, whatever follows: this is
/// what a run of `../` in front of a path does, and a run of `..\` where
/// the rule takes both separators.
pub proof fn lemma_climb_out_of_cwd_is_rejected(path: Seq<char>, env: EnvironmentView, count: nat)
    requires
        !read_as(path, env).contains('\0'),
        components(read_as(path, env)).len() <= env.config.max_path_depth,
        !is_absolute(read_as(path, env)),
        env.cwd is Ok,
        env.cwd->Ok_0.len() > 0,
        count <= appended_components(read_as(path, env)).len(),
        forall|i: int|
            0 <= i < count ==> (#[trigger] appended_components(read_as(path, env))[i])
                is ParentDir,
        count > depth_after(kinds_of(components(read_as(env.cwd->Ok_0, env)))),
    ensures
        traversal_verdict(path, env) == Err::<(), ErrorView>(
            ErrorView::PathTraversal(sanitized(absolute_form(path, env), env.detail)),
        ),
{
    let cwd = read_as(env.cwd->Ok_0, env);
    let path = read_as(path, env);
    let inside = kinds_of(components(cwd));
    let added = kinds_of(appended_components(path));
    let ups = Seq::new(count, |i: int| ComponentKind::ParentDir);
    lemma_join_appends_components(cwd, path);
    lemma_kinds_of_concat(components(cwd), appended_components(path));
    assert(added =~= ups + added.skip(count as int));
    lemma_climb_escapes(inside, count);
    lemma_escape_is_final(inside + ups, added.skip(count as int));
    assert(inside + added =~= (inside + ups) + added.skip(count as int));
}

} // verus!
