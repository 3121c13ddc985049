//! The check for symbolic-link cycles: a walk along the chain of links that
//! begins at a path, one question to the filesystem at a time.

use vstd::prelude::*;

use crate::environment::{sanitize_path_for_error, sanitized, Environment, ErrorDetail};
use crate::error::{verdict_view, ErrorView, SoftPathError};
use crate::grammar::{same_path, slashed, Separators};
use crate::path::SoftPath;
use crate::protocol::{
    unexpected, unexpected_event, Action, ActionView, Event, EventView, Value, ValueView,
};

verus! {

/// Where a walk along symbolic links stands.
#[derive(Debug, Clone, Copy, PartialEq, Eq, Structural)]
pub enum WalkStage {
    /// Nothing was asked yet.
    Fresh,
    /// The driver was asked whether the current path is a symbolic link.
    Probing,
    /// The driver was asked where the current link points.
    Reading,
    /// The walk has ended.
    Finished,
}

/// One walk along a chain of symbolic links.
#[derive(Debug, PartialEq, Eq)]
pub struct CycleWalk {
    pub stage: WalkStage,
    /// The path that the walk stands at.
    pub current: SoftPath,
    /// How many links were followed.
    pub followed: usize,
    /// The links that were followed: a set of paths, held in the order in
    /// which they were met. No path occurs twice, however it is written.
    pub visited: Vec<SoftPath>,
    /// The largest number of links that may be followed.
    pub limit: usize,
    pub detail: ErrorDetail,
    /// How the paths that the filesystem gives are read.
    pub separators: Separators,
}

/// Mathematical model of a [`CycleWalk`].
pub struct CycleWalkView {
    pub stage: WalkStage,
    pub current: Seq<char>,
    pub followed: usize,
    pub visited: Seq<Seq<char>>,
    pub limit: usize,
    pub detail: ErrorDetail,
    pub separators: Separators,
}

/// The texts of a sequence of paths.
pub open spec fn texts(paths: Seq<SoftPath>) -> Seq<Seq<char>> {
    Seq::new(paths.len(), |i: int| paths[i]@)
}

impl View for CycleWalk {
    type V = CycleWalkView;

    open spec fn view(&self) -> CycleWalkView {
        CycleWalkView {
            stage: self.stage,
            current: self.current@,
            followed: self.followed,
            visited: texts(self.visited@),
            limit: self.limit,
            detail: self.detail,
            separators: self.separators,
        }
    }
}

/// Whether `paths` holds `path`, in whatever way it is written there.
pub open spec fn holds_path(paths: Seq<Seq<char>>, path: Seq<char>) -> bool {
    exists|i: int| 0 <= i < paths.len() && same_path(#[trigger] paths[i], path)
}

/// No path occurs twice among `paths`, however it is written.
pub open spec fn all_distinct(paths: Seq<Seq<char>>) -> bool {
    forall|i: int, j: int| 0 <= i < j < paths.len() ==> !same_path(paths[i], paths[j])
}

impl CycleWalkView {
    /// What holds of every walk: the followed links are a set, with one
    /// member for each link that was followed.
    pub open spec fn well_formed(self) -> bool {
        &&& all_distinct(self.visited)
        &&& self.visited.len() == self.followed
    }
}

/// The walk that begins at `path`, before its first step. The path, and
/// every target that the filesystem gives, is read by the rule for
/// separators.
pub open spec fn fresh_walk(
    path: Seq<char>,
    limit: usize,
    detail: ErrorDetail,
    separators: Separators,
) -> CycleWalkView {
    CycleWalkView {
        stage: WalkStage::Fresh,
        current: slashed(path, separators),
        followed: 0,
        visited: Seq::empty(),
        limit,
        detail,
        separators,
    }
}

/// A walk that has ended with `outcome`.
pub open spec fn finished_walk(walk: CycleWalkView, outcome: Result<(), ErrorView>) -> (
    CycleWalkView,
    ActionView,
) {
    (
        CycleWalkView { stage: WalkStage::Finished, ..walk },
        ActionView::Finish(
            match outcome {
                Ok(_) => Ok(ValueView::Unit),
                Err(error) => Err(error),
            },
        ),
    )
}

/// One step of the walk: the state after `event`, and what to ask next.
///
/// A path that is no link ends the walk with a pass. A link that was
/// followed before, in whatever way it was written then, is a cycle; a
/// link beyond the limit is refused; any other link is recorded and
/// followed. A failure of the filesystem ends the walk as that failure.
pub open spec fn walk_step(walk: CycleWalkView, event: EventView) -> (CycleWalkView, ActionView) {
    match (walk.stage, event) {
        (WalkStage::Fresh, EventView::Start) => (
            CycleWalkView { stage: WalkStage::Probing, ..walk },
            ActionView::IsSymlink(walk.current),
        ),
        (WalkStage::Probing, EventView::Flag(false)) => finished_walk(walk, Ok(())),
        (WalkStage::Probing, EventView::Flag(true)) => {
            if holds_path(walk.visited, walk.current) {
                finished_walk(
                    walk,
                    Err(ErrorView::SymlinkCycleDetected(sanitized(walk.current, walk.detail))),
                )
            } else if walk.followed >= walk.limit {
                finished_walk(walk, Err(ErrorView::SymlinkDepthExceeded(walk.limit)))
            } else {
                (
                    CycleWalkView {
                        stage: WalkStage::Reading,
                        followed: (walk.followed + 1) as usize,
                        visited: walk.visited.push(walk.current),
                        ..walk
                    },
                    ActionView::ReadLink(walk.current),
                )
            }
        },
        (WalkStage::Reading, EventView::Path(target)) => (
            CycleWalkView {
                stage: WalkStage::Probing,
                current: slashed(target, walk.separators),
                ..walk
            },
            ActionView::IsSymlink(slashed(target, walk.separators)),
        ),
        (WalkStage::Probing, EventView::Failed(failure)) => finished_walk(
            walk,
            Err(ErrorView::Io(failure)),
        ),
        (WalkStage::Reading, EventView::Failed(failure)) => finished_walk(
            walk,
            Err(ErrorView::Io(failure)),
        ),
        _ => finished_walk(walk, Err(unexpected_event())),
    }
}

/// Whether `paths` holds the path `wanted`, in whatever way it is written.
fn holds(paths: &Vec<SoftPath>, wanted: &SoftPath) -> (found: bool)
    ensures
        found == holds_path(texts(paths@), wanted@),
{
    let mut i: usize = 0;
    while i < paths.len()
        invariant
            i <= paths.len(),
            forall|j: int| 0 <= j < i ==> !same_path(#[trigger] texts(paths@)[j], wanted@),
        decreases paths.len() - i,
    {
        if paths[i].same_components(wanted) {
            assert(same_path(texts(paths@)[i as int], wanted@));
            return true;
        }
        i += 1;
    }
    false
}

/// A path that is not among distinct paths can join them.
pub proof fn lemma_distinct_push(paths: Seq<Seq<char>>, path: Seq<char>)
    requires
        all_distinct(paths),
        !holds_path(paths, path),
    ensures
        all_distinct(paths.push(path)),
{
    let more = paths.push(path);
    assert forall|i: int, j: int| 0 <= i < j < more.len() implies !same_path(more[i], more[j]) by {
        if j == paths.len() {
            assert(!same_path(paths[i], path));
        } else {
            assert(!same_path(paths[i], paths[j]));
        }
    }
}

/// A step keeps the followed links a set.
pub proof fn lemma_step_keeps_well_formed(walk: CycleWalkView, event: EventView)
    requires
        walk.well_formed(),
    ensures
        walk_step(walk, event).0.well_formed(),
{
    if walk.stage == WalkStage::Probing && event == EventView::Flag(true) && !holds_path(
        walk.visited,
        walk.current,
    ) {
        lemma_distinct_push(walk.visited, walk.current);
    }
}

/// Begins the check of `path` for symbolic-link cycles. The walk asks its
/// questions through [`CycleWalk::step`], starting with [`Event::Start`].
pub fn check_symlink_cycles(path: &SoftPath, env: &Environment) -> (walk: CycleWalk)
    ensures
        walk@ == fresh_walk(path@, env.config.max_symlink_depth, env.detail, env.separators),
        walk@.well_formed(),
{
    let walk = CycleWalk {
        stage: WalkStage::Fresh,
        current: path.slashed(env.separators),
        followed: 0,
        visited: Vec::new(),
        limit: env.config.max_symlink_depth,
        detail: env.detail,
        separators: env.separators,
    };
    assert(texts(walk.visited@) =~= Seq::<Seq<char>>::empty());
    walk
}

impl CycleWalk {
    /// Ends the walk.
    fn finish(&mut self, outcome: Result<(), SoftPathError>) -> (action: Action)
        ensures
            (final(self)@, action@) == finished_walk(old(self)@, verdict_view(outcome)),
    {
        self.stage = WalkStage::Finished;
        match outcome {
            Ok(_) => Action::Finish(Ok(Value::Unit)),
            Err(error) => Action::Finish(Err(error)),
        }
    }

    /// Takes the driver's answer and says what to do next.
    pub fn step(&mut self, event: Event) -> (action: Action)
        ensures
            (final(self)@, action@) == walk_step(old(self)@, event@),
            old(self)@.well_formed() ==> final(self)@.well_formed(),
    {
        proof {
            if old(self)@.well_formed() {
                lemma_step_keeps_well_formed(old(self)@, event@);
            }
        }
        match self.stage {
            WalkStage::Fresh => match event {
                Event::Start => {
                    self.stage = WalkStage::Probing;
                    Action::IsSymlink(self.current.duplicate())
                },
                _ => self.finish(Err(unexpected())),
            },
            WalkStage::Probing => match event {
                Event::Flag(false) => self.finish(Ok(())),
                Event::Flag(true) => {
                    if holds(&self.visited, &self.current) {
                        let shown = sanitize_path_for_error(&self.current, self.detail);
                        self.finish(Err(SoftPathError::SymlinkCycleDetected(shown)))
                    } else if self.followed >= self.limit {
                        let limit = self.limit;
                        self.finish(Err(SoftPathError::SymlinkDepthExceeded(limit)))
                    } else {
                        self.visited.push(self.current.duplicate());
                        self.followed += 1;
                        self.stage = WalkStage::Reading;
                        assert(texts(self.visited@) =~= texts(old(self).visited@).push(
                            old(self).current@,
                        ));
                        Action::ReadLink(self.current.duplicate())
                    }
                },
                Event::Failed(failure) => self.finish(Err(SoftPathError::Io(failure))),
                _ => self.finish(Err(unexpected())),
            },
            WalkStage::Reading => match event {
                Event::Path(target) => {
                    self.current = target.slashed(self.separators);
                    self.stage = WalkStage::Probing;
                    Action::IsSymlink(self.current.duplicate())
                },
                Event::Failed(failure) => self.finish(Err(SoftPathError::Io(failure))),
                _ => self.finish(Err(unexpected())),
            },
            WalkStage::Finished => self.finish(Err(unexpected())),
        }
    }
}

/// The verdict of a walk that stands in front of its next question, over a
/// filesystem whose symbolic links are `links`: each key is a link, and
/// its value is where the link points.
pub open spec fn walk_outcome(walk: CycleWalkView, links: Map<Seq<char>, Seq<char>>) -> Result<
    (),
    ErrorView,
>
    decreases walk.limit - walk.followed,
{
    let probed = walk_step(walk, EventView::Flag(links.dom().contains(walk.current)));
    match probed.1 {
        ActionView::ReadLink(link) => {
            let read = walk_step(probed.0, EventView::Path(links[link]));
            if walk.followed < walk.limit && read.0.followed == walk.followed + 1 && read.0.limit
                == walk.limit {
                walk_outcome(read.0, links)
            } else {
                Err(unexpected_event())
            }
        },
        ActionView::Finish(Ok(_)) => Ok(()),
        ActionView::Finish(Err(error)) => Err(error),
        _ => Err(unexpected_event()),
    }
}

/// The verdict of the whole check of `path` over the links `links`.
pub open spec fn cycle_verdict(
    path: Seq<char>,
    limit: usize,
    detail: ErrorDetail,
    separators: Separators,
    links: Map<Seq<char>, Seq<char>>,
) -> Result<(), ErrorView> {
    walk_outcome(
        walk_step(fresh_walk(path, limit, detail, separators), EventView::Start).0,
        links,
    )
}

/// `chain` is a stretch of the filesystem's links: each path but the last
/// is a link, and points to the path behind it. The chain is made of the
/// texts that the filesystem is asked about, and each of them is the
/// target before it as the rule for separators reads it.
pub open spec fn is_chain(
    chain: Seq<Seq<char>>,
    links: Map<Seq<char>, Seq<char>>,
    separators: Separators,
) -> bool {
    &&& chain.len() >= 1
    &&& forall|i: int|
        0 <= i < chain.len() - 1 ==> links.dom().contains(#[trigger] chain[i]) && slashed(
            links[chain[i]],
            separators,
        ) == chain[i + 1]
}

/// The walk after it has followed every link of `chain` but the last
/// path, at which it then stands.
pub open spec fn advanced(walk: CycleWalkView, chain: Seq<Seq<char>>) -> CycleWalkView {
    CycleWalkView {
        current: chain.last(),
        followed: (walk.followed + chain.len() - 1) as usize,
        visited: walk.visited + chain.drop_last(),
        ..walk
    }
}

/// A walk follows a chain of links that it has not seen, as long as the
/// limit allows: its verdict is the verdict at the chain's last path.
pub proof fn lemma_walk_follows_chain(
    walk: CycleWalkView,
    links: Map<Seq<char>, Seq<char>>,
    chain: Seq<Seq<char>>,
)
    requires
        walk.stage == WalkStage::Probing,
        is_chain(chain, links, walk.separators),
        chain[0] == walk.current,
        all_distinct(walk.visited + chain.drop_last()),
        walk.followed + chain.len() - 1 <= walk.limit,
    ensures
        walk_outcome(walk, links) == walk_outcome(advanced(walk, chain), links),
    decreases chain.len(),
{
    if chain.len() == 1 {
        assert(chain.drop_last() =~= Seq::<Seq<char>>::empty());
        assert(walk.visited + chain.drop_last() =~= walk.visited);
        assert(advanced(walk, chain) == walk);
    } else {
        let seen = walk.visited + chain.drop_last();
        let rest = chain.drop_first();
        assert(chain[0] == seen[walk.visited.len() as int]);
        assert(!holds_path(walk.visited, walk.current)) by {
            if holds_path(walk.visited, walk.current) {
                let i = choose|i: int|
                    0 <= i < walk.visited.len() && same_path(
                        #[trigger] walk.visited[i],
                        walk.current,
                    );
                assert(seen[i] == walk.visited[i]);
                assert(!same_path(seen[i], seen[walk.visited.len() as int]));
            }
        }
        let probed = walk_step(walk, EventView::Flag(true));
        let next = walk_step(probed.0, EventView::Path(links[chain[0]])).0;
        assert(links.dom().contains(chain[0]) && slashed(links[chain[0]], walk.separators)
            == chain[1]);
        assert(walk_outcome(walk, links) == walk_outcome(next, links));
        assert(is_chain(rest, links, walk.separators)) by {
            assert forall|i: int| 0 <= i < rest.len() - 1 implies links.dom().contains(
                #[trigger] rest[i],
            ) && slashed(links[rest[i]], walk.separators) == rest[i + 1] by {
                assert(rest[i] == chain[i + 1]);
            }
        }
        assert(next.visited + rest.drop_last() =~= seen);
        lemma_walk_follows_chain(next, links, rest);
        assert(advanced(next, rest) == advanced(walk, chain));
    }
}

/// The verdict of a walk at the path it stands at.
pub proof fn lemma_outcome_here(walk: CycleWalkView, links: Map<Seq<char>, Seq<char>>)
    requires
        walk.stage == WalkStage::Probing,
    ensures
        !links.dom().contains(walk.current) ==> walk_outcome(walk, links) is Ok,
        links.dom().contains(walk.current) && holds_path(walk.visited, walk.current)
            ==> walk_outcome(walk, links) == Err::<(), ErrorView>(
            ErrorView::SymlinkCycleDetected(sanitized(walk.current, walk.detail)),
        ),
        links.dom().contains(walk.current) && !holds_path(walk.visited, walk.current)
            && walk.followed >= walk.limit ==> walk_outcome(walk, links) == Err::<(), ErrorView>(
            ErrorView::SymlinkDepthExceeded(walk.limit),
        ),
{
}

/// Among distinct paths, those before the last are distinct, and the last
/// is none of them.
pub proof fn lemma_distinct_front(paths: Seq<Seq<char>>)
    requires
        paths.len() >= 1,
        all_distinct(paths),
    ensures
        all_distinct(paths.drop_last()),
        !holds_path(paths.drop_last(), paths.last()),
{
    let front = paths.drop_last();
    assert forall|i: int, j: int| 0 <= i < j < front.len() implies !same_path(
        front[i],
        front[j],
    ) by {
        assert(!same_path(paths[i], paths[j]));
    }
    if holds_path(front, paths.last()) {
        let i = choose|i: int| 0 <= i < front.len() && same_path(#[trigger] front[i], paths.last());
        assert(!same_path(paths[i], paths[paths.len() - 1]));
    }
}

/// A chain of links that ends at a path which is no link passes, where the
/// number of its links is within the limit.
pub proof fn lemma_chain_to_file_passes(
    path: Seq<char>,
    limit: usize,
    detail: ErrorDetail,
    separators: Separators,
    links: Map<Seq<char>, Seq<char>>,
    chain: Seq<Seq<char>>,
)
    requires
        is_chain(chain, links, separators),
        chain[0] == slashed(path, separators),
        all_distinct(chain.drop_last()),
        !links.dom().contains(chain.last()),
        chain.len() - 1 <= limit,
    ensures
        cycle_verdict(path, limit, detail, separators, links) == Ok::<(), ErrorView>(()),
{
    let walk = walk_step(fresh_walk(path, limit, detail, separators), EventView::Start).0;
    assert(walk.visited + chain.drop_last() =~= chain.drop_last());
    lemma_walk_follows_chain(walk, links, chain);
    lemma_outcome_here(advanced(walk, chain), links);
}

/// A chain of links whose last path is a link that the chain has passed
/// before, in whatever way it was written there, is a cycle, and is
/// rejected as one, where the limit allows the walk to come that far. The
/// rejection shows the path as it was met last.
pub proof fn lemma_cycle_is_detected(
    path: Seq<char>,
    limit: usize,
    detail: ErrorDetail,
    separators: Separators,
    links: Map<Seq<char>, Seq<char>>,
    chain: Seq<Seq<char>>,
)
    requires
        is_chain(chain, links, separators),
        chain[0] == slashed(path, separators),
        all_distinct(chain.drop_last()),
        links.dom().contains(chain.last()),
        holds_path(chain.drop_last(), chain.last()),
        chain.len() - 1 <= limit,
    ensures
        cycle_verdict(path, limit, detail, separators, links) == Err::<(), ErrorView>(
            ErrorView::SymlinkCycleDetected(sanitized(chain.last(), detail)),
        ),
{
    let walk = walk_step(fresh_walk(path, limit, detail, separators), EventView::Start).0;
    assert(walk.visited + chain.drop_last() =~= chain.drop_last());
    lemma_walk_follows_chain(walk, links, chain);
    lemma_outcome_here(advanced(walk, chain), links);
}

/// A chain of more distinct links than the limit allows is rejected for
/// its depth, and the rejection reports the limit.
pub proof fn lemma_long_chain_is_refused(
    path: Seq<char>,
    limit: usize,
    detail: ErrorDetail,
    separators: Separators,
    links: Map<Seq<char>, Seq<char>>,
    chain: Seq<Seq<char>>,
)
    requires
        is_chain(chain, links, separators),
        chain[0] == slashed(path, separators),
        all_distinct(chain),
        links.dom().contains(chain.last()),
        chain.len() == limit + 1,
    ensures
        cycle_verdict(path, limit, detail, separators, links) == Err::<(), ErrorView>(
            ErrorView::SymlinkDepthExceeded(limit),
        ),
{
    let walk = walk_step(fresh_walk(path, limit, detail, separators), EventView::Start).0;
    assert(walk.visited + chain.drop_last() =~= chain.drop_last());
    lemma_distinct_front(chain);
    lemma_walk_follows_chain(walk, links, chain);
    lemma_outcome_here(advanced(walk, chain), links);
}

/// Two links that point at each other are a cycle: the walk is back at the
/// first after two steps and rejects it, where the limit allows two steps.
/// The paths are taken in the library's own writing, and the targets as
/// the rule for separators reads them.
pub proof fn lemma_two_link_cycle(
    a: Seq<char>,
    b: Seq<char>,
    limit: usize,
    detail: ErrorDetail,
    separators: Separators,
    links: Map<Seq<char>, Seq<char>>,
)
    requires
        !same_path(a, b),
        slashed(a, separators) == a,
        links.dom().contains(a) && slashed(links[a], separators) == b,
        links.dom().contains(b) && slashed(links[b], separators) == a,
        limit >= 2,
    ensures
        cycle_verdict(a, limit, detail, separators, links) == Err::<(), ErrorView>(
            ErrorView::SymlinkCycleDetected(sanitized(a, detail)),
        ),
{
    let chain = seq![a, b, a];
    assert(chain.drop_last() =~= seq![a, b]);
    assert(same_path(chain.drop_last()[0], chain.last()));
    lemma_cycle_is_detected(a, limit, detail, separators, links, chain);
}

/// A link whose target is its own path, written in any way, is a cycle of
/// one link: the walk rejects it after one step, and shows the target.
pub proof fn lemma_link_to_its_own_path(
    link: Seq<char>,
    target: Seq<char>,
    limit: usize,
    detail: ErrorDetail,
    separators: Separators,
    links: Map<Seq<char>, Seq<char>>,
)
    requires
        same_path(link, target),
        slashed(link, separators) == link,
        links.dom().contains(link) && slashed(links[link], separators) == target,
        links.dom().contains(target),
        limit >= 1,
    ensures
        cycle_verdict(link, limit, detail, separators, links) == Err::<(), ErrorView>(
            ErrorView::SymlinkCycleDetected(sanitized(target, detail)),
        ),
{
    let chain = seq![link, target];
    assert(chain.drop_last() =~= seq![link]);
    assert(same_path(chain.drop_last()[0], chain.last()));
    lemma_cycle_is_detected(link, limit, detail, separators, links, chain);
}

/// The path that the walk stands at after `n` links: the path itself, and
/// then each time the target of the link before, each as the rule for
/// separators reads it.
pub open spec fn hop(
    links: Map<Seq<char>, Seq<char>>,
    separators: Separators,
    path: Seq<char>,
    n: int,
) -> Seq<char>
    decreases n,
{
    if n <= 0 {
        slashed(path, separators)
    } else {
        slashed(links[hop(links, separators, path, n - 1)], separators)
    }
}

/// The paths that the walk stands at up to and with hop `n`.
pub open spec fn hops(
    links: Map<Seq<char>, Seq<char>>,
    separators: Separators,
    path: Seq<char>,
    n: int,
) -> Seq<Seq<char>> {
    Seq::new((n + 1) as nat, |i: int| hop(links, separators, path, i))
}

/// Whether the walk ends at hop `n`: the path there is no link, or it is
/// one of the paths before.
pub open spec fn ends_at(
    links: Map<Seq<char>, Seq<char>>,
    separators: Separators,
    path: Seq<char>,
    n: int,
) -> bool {
    ||| !links.dom().contains(hop(links, separators, path, n))
    ||| holds_path(hops(links, separators, path, n).drop_last(), hop(links, separators, path, n))
}

/// The verdict of the whole check, for every path and every filesystem.
/// With `r` the first hop at which the walk ends, or any number beyond
/// the limit where it ends at none within the limit: the check passes
/// exactly when `r` is within the limit and the path there is no link; it
/// rejects a cycle, showing the path at `r`, when `r` is within the limit
/// and the path there is a link that the walk has passed; and it rejects
/// the depth, reporting the limit, when `r` is beyond the limit.
pub proof fn lemma_cycle_verdict(
    path: Seq<char>,
    limit: usize,
    detail: ErrorDetail,
    separators: Separators,
    links: Map<Seq<char>, Seq<char>>,
    r: int,
)
    requires
        0 <= r,
        forall|i: int| 0 <= i < r && i <= limit ==> !#[trigger] ends_at(links, separators, path, i),
        r <= limit ==> ends_at(links, separators, path, r),
    ensures
        cycle_verdict(path, limit, detail, separators, links) == (if r > limit {
            Err::<(), ErrorView>(ErrorView::SymlinkDepthExceeded(limit))
        } else if !links.dom().contains(hop(links, separators, path, r)) {
            Ok::<(), ErrorView>(())
        } else {
            Err::<(), ErrorView>(
                ErrorView::SymlinkCycleDetected(sanitized(hop(links, separators, path, r), detail)),
            )
        }),
{
    let last: int = if r > limit {
        limit as int
    } else {
        r
    };
    let chain = hops(links, separators, path, last);
    assert(is_chain(chain, links, separators)) by {
        assert forall|i: int| 0 <= i < chain.len() - 1 implies links.dom().contains(
            #[trigger] chain[i],
        ) && slashed(links[chain[i]], separators) == chain[i + 1] by {
            assert(!ends_at(links, separators, path, i));
            assert(hop(links, separators, path, i + 1) == slashed(
                links[hop(links, separators, path, i)],
                separators,
            ));
        }
    }
    assert(all_distinct(chain.drop_last())) by {
        assert forall|i: int, j: int| 0 <= i < j < chain.drop_last().len() implies !same_path(
            chain.drop_last()[i],
            chain.drop_last()[j],
        ) by {
            assert(!ends_at(links, separators, path, j));
            let before = hops(links, separators, path, j).drop_last();
            assert(before[i] == hop(links, separators, path, i));
            if same_path(hop(links, separators, path, i), hop(links, separators, path, j)) {
                assert(same_path(before[i], hop(links, separators, path, j)));
            }
        }
    }
    assert(chain[0] == slashed(path, separators));
    assert(chain.last() == hop(links, separators, path, last));
    if r > limit {
        assert(!ends_at(links, separators, path, last));
        assert(all_distinct(chain)) by {
            assert forall|i: int, j: int| 0 <= i < j < chain.len() implies !same_path(
                chain[i],
                chain[j],
            ) by {
                if j < chain.len() - 1 {
                    assert(!same_path(chain.drop_last()[i], chain.drop_last()[j]));
                } else {
                    if same_path(chain[i], chain[j]) {
                        assert(same_path(chain.drop_last()[i], chain.last()));
                    }
                }
            }
        }
        lemma_long_chain_is_refused(path, limit, detail, separators, links, chain);
    } else if !links.dom().contains(hop(links, separators, path, r)) {
        lemma_chain_to_file_passes(path, limit, detail, separators, links, chain);
    } else {
        lemma_cycle_is_detected(path, limit, detail, separators, links, chain);
    }
}

} // verus!
