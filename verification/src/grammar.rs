//! The grammar of paths: how a text is read as a sequence of components.
//!
//! The grammar is that of POSIX paths: `/` separates segments, a leading
//! `/` is the root, `.` and `..` are the current and the parent directory.
//! A text that comes in with `\` as a separator is first brought into this
//! writing ([`slashed`]). Drive letters and other prefixes have no
//! meaning of their own here: they are names.
//! Everything here is mathematics; [`crate::path`] holds the code that
//! computes it.

use vstd::prelude::*;

verus! {

/// One component of a path, in the order in which the path names them.
pub enum Component {
    /// The root marker: a leading `/`.
    RootDir,
    /// A `.` at the very start of a relative path.
    CurDir,
    /// A `..` segment.
    ParentDir,
    /// A named segment.
    Normal(Seq<char>),
}

/// What kind of component stands at a place, without its name.
#[derive(Debug, Clone, Copy, PartialEq, Eq, Structural)]
pub enum ComponentKind {
    RootDir,
    CurDir,
    ParentDir,
    Normal,
}

/// The kind of a component.
pub open spec fn kind_of(component: Component) -> ComponentKind {
    match component {
        Component::RootDir => ComponentKind::RootDir,
        Component::CurDir => ComponentKind::CurDir,
        Component::ParentDir => ComponentKind::ParentDir,
        Component::Normal(_) => ComponentKind::Normal,
    }
}

/// The kinds of a sequence of components, in the same order.
pub open spec fn kinds_of(parts: Seq<Component>) -> Seq<ComponentKind> {
    Seq::new(parts.len(), |i: int| kind_of(parts[i]))
}

/// Where a component stands in the text of a path: its kind, and the
/// characters from `start` up to `end`.
#[derive(Debug, Clone, Copy, PartialEq, Eq, Structural)]
pub struct Span {
    pub kind: ComponentKind,
    pub start: usize,
    pub end: usize,
}

/// The component that a span of `text` stands for.
pub open spec fn span_component(text: Seq<char>, span: Span) -> Component {
    match span.kind {
        ComponentKind::RootDir => Component::RootDir,
        ComponentKind::CurDir => Component::CurDir,
        ComponentKind::ParentDir => Component::ParentDir,
        ComponentKind::Normal => Component::Normal(
            text.subrange(span.start as int, span.end as int),
        ),
    }
}

/// The components that a sequence of spans of `text` stands for.
pub open spec fn spans_components(text: Seq<char>, spans: Seq<Span>) -> Seq<Component> {
    Seq::new(spans.len(), |i: int| span_component(text, spans[i]))
}

/// Two texts are the same path when they have the same components: the
/// root marker is a component, so an absolute path is never a relative
/// one. `/x/a`, `/x//a`, `/x/a/` and `/x/./a` are one path.
pub open spec fn same_path(a: Seq<char>, b: Seq<char>) -> bool {
    components(a) == components(b)
}

/// Which characters separate the segments of a path as it comes in.
#[derive(Debug, Clone, Copy, PartialEq, Eq, Structural)]
pub enum Separators {
    /// `/` alone: a `\` is a character of a name.
    Slash,
    /// `/` and `\`, as on platforms that take both.
    SlashAndBackslash,
}

/// The text of a path in the library's own writing, where `/` alone
/// separates: under the rule that takes both, every `\` becomes a `/`.
pub open spec fn slashed(text: Seq<char>, rule: Separators) -> Seq<char> {
    match rule {
        Separators::Slash => text,
        Separators::SlashAndBackslash => Seq::new(
            text.len(),
            |i: int|
                if text[i] == '\\' {
                    '/'
                } else {
                    text[i]
                },
        ),
    }
}

/// A text in the library's own writing stays as it is when it is brought
/// into that writing again.
pub proof fn lemma_slashed_twice(text: Seq<char>, rule: Separators)
    ensures
        slashed(slashed(text, rule), rule) == slashed(text, rule),
{
    assert(slashed(slashed(text, rule), rule) =~= slashed(text, rule));
}

/// Under the rule that takes both separators, no `\` is left: a run of
/// `..\` is read as a run of `../`.
pub proof fn lemma_slashed_has_no_backslash(text: Seq<char>)
    ensures
        !slashed(text, Separators::SlashAndBackslash).contains('\\'),
        slashed(text, Separators::SlashAndBackslash).len() == text.len(),
{
    let read = slashed(text, Separators::SlashAndBackslash);
    if read.contains('\\') {
        let i = choose|i: int| 0 <= i < read.len() && read[i] == '\\';
        assert(read[i] != '\\');
    }
}

/// One more than the index of the last `mark` in `s`; 0 where `s` holds none.
pub open spec fn after_last(s: Seq<char>, mark: char) -> int
    decreases s.len(),
{
    if s.len() == 0 {
        0
    } else if s.last() == mark {
        s.len() as int
    } else {
        after_last(s.drop_last(), mark)
    }
}

/// Where the last segment of `s` begins: behind the last separator.
pub open spec fn last_segment_start(s: Seq<char>) -> int {
    after_last(s, '/')
}

/// The segment `.`.
pub open spec fn is_dot(segment: Seq<char>) -> bool {
    segment.len() == 1 && segment[0] == '.'
}

/// The segment `..`.
pub open spec fn is_dot_dot(segment: Seq<char>) -> bool {
    segment.len() == 2 && segment[0] == '.' && segment[1] == '.'
}

/// A segment that names nothing when it follows a separator: empty, or `.`.
pub open spec fn is_skipped(segment: Seq<char>) -> bool {
    segment.len() == 0 || is_dot(segment)
}

/// The components that a segment behind a separator stands for: none or one.
pub open spec fn later_component(segment: Seq<char>) -> Seq<Component> {
    if is_skipped(segment) {
        Seq::empty()
    } else if is_dot_dot(segment) {
        seq![Component::ParentDir]
    } else {
        seq![Component::Normal(segment)]
    }
}

/// The components of a path that is one segment, with no separator.
pub open spec fn first_component(segment: Seq<char>) -> Seq<Component> {
    if segment.len() == 0 {
        Seq::empty()
    } else if is_dot(segment) {
        seq![Component::CurDir]
    } else if is_dot_dot(segment) {
        seq![Component::ParentDir]
    } else {
        seq![Component::Normal(segment)]
    }
}

/// The components that the segment `segment` stands for, as the first
/// segment of a relative path or as a later one.
pub open spec fn segment_component(segment: Seq<char>, first: bool) -> Seq<Component> {
    if first {
        first_component(segment)
    } else {
        later_component(segment)
    }
}

/// The components of the path written as `s`.
///
/// Repeated separators and a trailing separator name nothing, and neither
/// does a `.` segment, except at the very start of a relative path.
pub open spec fn components(s: Seq<char>) -> Seq<Component>
    decreases s.len(),
{
    let start = last_segment_start(s);
    let segment = s.subrange(start, s.len() as int);
    if start <= 0 {
        first_component(segment)
    } else if start == 1 {
        seq![Component::RootDir] + later_component(segment)
    } else if start <= s.len() {
        components(s.subrange(0, start - 1)) + later_component(segment)
    } else {
        Seq::empty()
    }
}

/// The components of a relative path where it follows another path: a
/// `.` at its start names nothing there.
pub open spec fn appended_components(other: Seq<char>) -> Seq<Component> {
    let parts = components(other);
    if parts.len() > 0 && parts[0] is CurDir {
        parts.drop_first()
    } else {
        parts
    }
}

/// A path is absolute when it begins at the root.
pub open spec fn is_absolute(s: Seq<char>) -> bool {
    s.len() > 0 && s[0] == '/'
}

/// `other` resolved against `base`: an absolute `other` stands alone, a
/// relative one is appended behind exactly one separator.
pub open spec fn join(base: Seq<char>, other: Seq<char>) -> Seq<char> {
    if is_absolute(other) {
        other
    } else if base.len() == 0 || base.last() == '/' {
        base + other
    } else {
        base + seq!['/'] + other
    }
}

/// The length of `s` once its trailing separators and trailing `.`
/// segments are cut. The root is never cut, nor a `.` that begins the path.
pub open spec fn trimmed_len(s: Seq<char>) -> int
    decreases s.len(),
{
    let start = last_segment_start(s);
    let segment = s.subrange(start, s.len() as int);
    if 2 <= start <= s.len() && is_skipped(segment) {
        trimmed_len(s.subrange(0, start - 1))
    } else if start == 1 && is_skipped(segment) {
        1
    } else {
        s.len() as int
    }
}

/// Where the last component of `s` begins in its text.
pub open spec fn name_start(s: Seq<char>) -> int {
    last_segment_start(s.take(trimmed_len(s)))
}

/// The text of the last component of `s`: empty where `s` has no component
/// or only the root.
pub open spec fn last_segment(s: Seq<char>) -> Seq<char> {
    s.subrange(name_start(s), trimmed_len(s))
}

/// The final component of a path, if it is a name.
pub open spec fn file_name(s: Seq<char>) -> Option<Seq<char>> {
    let segment = last_segment(s);
    if segment.len() == 0 || is_dot(segment) || is_dot_dot(segment) {
        None
    } else {
        Some(segment)
    }
}

/// The path without its final component: none for the empty path and for
/// the root.
pub open spec fn parent(s: Seq<char>) -> Option<Seq<char>> {
    let start = name_start(s);
    if last_segment(s).len() == 0 {
        None
    } else if start <= 1 {
        Some(s.take(start))
    } else {
        Some(s.take(trimmed_len(s.take(start - 1))))
    }
}

/// The extension of a file name: what follows its last `.`, unless that `.`
/// begins the name.
pub open spec fn extension_of(name: Seq<char>) -> Option<Seq<char>> {
    let dot = after_last(name, '.');
    if dot <= 1 {
        None
    } else {
        Some(name.subrange(dot, name.len() as int))
    }
}

/// The length of a file name's stem: the name without `.` and extension.
pub open spec fn stem_len(name: Seq<char>) -> int {
    let dot = after_last(name, '.');
    if dot <= 1 {
        name.len() as int
    } else {
        dot - 1
    }
}

/// The extension of a path's file name.
pub open spec fn extension(s: Seq<char>) -> Option<Seq<char>> {
    match file_name(s) {
        Some(name) => extension_of(name),
        None => None,
    }
}

/// The path with the extension of its file name replaced by `ext`. A path
/// without a file name stays as it is; everything behind the file name's
/// stem is cut.
pub open spec fn with_extension(s: Seq<char>, ext: Seq<char>) -> Seq<char> {
    match file_name(s) {
        None => s,
        Some(name) => {
            let base = s.take(name_start(s) + stem_len(name));
            if ext.len() == 0 {
                base
            } else {
                base + seq!['.'] + ext
            }
        },
    }
}

/// `after_last` stays inside the text, stands behind a `mark`, and no `mark`
/// follows it.
pub proof fn lemma_after_last(s: Seq<char>, mark: char)
    ensures
        0 <= after_last(s, mark) <= s.len(),
        after_last(s, mark) > 0 ==> s[after_last(s, mark) - 1] == mark,
        forall|i: int| after_last(s, mark) <= i < s.len() ==> s[i] != mark,
    decreases s.len(),
{
    if s.len() > 0 && s.last() != mark {
        let front = s.drop_last();
        lemma_after_last(front, mark);
        assert forall|i: int| after_last(s, mark) <= i < s.len() implies s[i] != mark by {
            if i < front.len() {
                assert(front[i] == s[i]);
            }
        }
    }
}

/// How `after_last` moves when the text grows by one character.
pub proof fn lemma_after_last_step(s: Seq<char>, mark: char, i: int)
    requires
        0 <= i < s.len(),
    ensures
        after_last(s.take(i + 1), mark) == if s[i] == mark {
            i + 1
        } else {
            after_last(s.take(i), mark)
        },
{
    assert(s.take(i + 1).drop_last() =~= s.take(i));
}

/// `after_last` of a concatenation lies in the second part where that
/// holds the mark, and in the first part otherwise.
pub proof fn lemma_after_last_concat(a: Seq<char>, b: Seq<char>, mark: char)
    ensures
        after_last(a + b, mark) == if after_last(b, mark) > 0 {
            a.len() + after_last(b, mark)
        } else {
            after_last(a, mark)
        },
    decreases b.len(),
{
    if b.len() == 0 {
        assert(a + b =~= a);
    } else {
        assert((a + b).drop_last() =~= a + b.drop_last());
        if b.last() != mark {
            lemma_after_last_concat(a, b.drop_last(), mark);
        }
    }
}

/// A path that ends in a separator has the components of what stands
/// before that separator; the root alone is one component.
pub proof fn lemma_components_closed(s: Seq<char>, end: int)
    requires
        1 <= end <= s.len(),
        s[end - 1] == '/',
    ensures
        components(s.take(end)) == if end == 1 {
            seq![Component::RootDir]
        } else {
            components(s.take(end - 1))
        },
{
    let t = s.take(end);
    assert(t.last() == '/');
    assert(last_segment_start(t) == end);
    assert(t.subrange(end, t.len() as int) =~= Seq::<char>::empty());
    assert(later_component(Seq::<char>::empty()) =~= Seq::<Component>::empty());
    if end == 1 {
        assert(components(t) =~= seq![Component::RootDir]);
    } else {
        assert(t.subrange(0, end - 1) =~= s.take(end - 1));
        assert(components(t) =~= components(s.take(end - 1)));
    }
}

/// A path's components are those of everything up to its last separator,
/// followed by what its last segment stands for.
pub proof fn lemma_components_open(s: Seq<char>)
    ensures
        components(s) == components(s.take(last_segment_start(s))) + segment_component(
            s.subrange(last_segment_start(s), s.len() as int),
            last_segment_start(s) == 0,
        ),
{
    let start = last_segment_start(s);
    lemma_after_last(s, '/');
    let segment = s.subrange(start, s.len() as int);
    if start == 0 {
        assert(s.take(0) =~= Seq::<char>::empty());
        assert(components(Seq::<char>::empty()) =~= Seq::<Component>::empty());
        assert(components(s) =~= Seq::<Component>::empty() + first_component(segment));
    } else {
        lemma_components_closed(s, start);
        if start > 1 {
            assert(s.subrange(0, start - 1) =~= s.take(start - 1));
        }
    }
}

/// The kinds of a concatenation are the concatenated kinds.
pub proof fn lemma_kinds_of_concat(a: Seq<Component>, b: Seq<Component>)
    ensures
        kinds_of(a + b) == kinds_of(a) + kinds_of(b),
{
    assert(kinds_of(a + b) =~= kinds_of(a) + kinds_of(b));
}

/// A relative path that is not empty has a component.
pub proof fn lemma_relative_has_component(s: Seq<char>)
    requires
        s.len() > 0,
        !is_absolute(s),
    ensures
        components(s).len() > 0,
    decreases s.len(),
{
    let start = last_segment_start(s);
    lemma_after_last(s, '/');
    if start >= 2 {
        lemma_relative_has_component(s.subrange(0, start - 1));
    }
}

/// Joining a relative path to a path appends its components.
pub proof fn lemma_join_appends_components(base: Seq<char>, other: Seq<char>)
    requires
        base.len() > 0,
        !is_absolute(other),
    ensures
        components(join(base, other)) == components(base) + appended_components(other),
    decreases other.len(),
{
    let front = if base.last() == '/' {
        base
    } else {
        base + seq!['/']
    };
    let joined = join(base, other);
    assert(joined =~= front + other);
    assert(components(front) == components(base)) by {
        if base.last() != '/' {
            lemma_components_closed(front, front.len() as int);
            assert(front.take(front.len() as int) =~= front);
            assert(front.take(front.len() - 1) =~= base);
        }
    }
    let at = last_segment_start(other);
    lemma_after_last(other, '/');
    lemma_after_last(front, '/');
    lemma_after_last_concat(front, other, '/');
    let start = last_segment_start(joined);
    assert(start == front.len() + at);
    let segment = other.subrange(at, other.len() as int);
    assert(joined.subrange(start, joined.len() as int) =~= segment);
    lemma_components_open(joined);
    assert(components(joined) == components(joined.take(start)) + later_component(segment));
    if other.len() == 0 {
        assert(joined.take(start) =~= front);
        assert(components(other) =~= Seq::<Component>::empty());
        assert(components(joined) =~= components(base) + appended_components(other));
    } else if at == 0 {
        assert(joined.take(start) =~= front);
        assert(components(other) == first_component(segment));
        assert(other.subrange(0, other.len() as int) =~= other);
        if is_dot(other) {
            assert(appended_components(other) =~= Seq::<Component>::empty());
        } else {
            assert(appended_components(other) =~= later_component(segment));
        }
    } else {
        assert(at >= 2);
        let head = other.subrange(0, at - 1);
        assert(joined.take(start - 1) =~= join(base, head));
        lemma_components_closed(joined, start);
        lemma_join_appends_components(base, head);
        lemma_relative_has_component(head);
        let inner = components(head);
        let last = later_component(segment);
        assert(components(other) == inner + last);
        if inner[0] is CurDir {
            assert((inner + last).drop_first() =~= inner.drop_first() + last);
        }
        assert(appended_components(other) =~= appended_components(head) + last);
        assert(components(joined) =~= components(base) + appended_components(other));
    }
}

/// The trimmed length lies inside the text, and so does the start of the
/// last component.
pub proof fn lemma_trimmed_len(s: Seq<char>)
    ensures
        0 <= name_start(s) <= trimmed_len(s) <= s.len(),
        s.len() > 0 ==> trimmed_len(s) > 0,
    decreases s.len(),
{
    let start = last_segment_start(s);
    lemma_after_last(s, '/');
    let segment = s.subrange(start, s.len() as int);
    if 2 <= start && is_skipped(segment) {
        lemma_trimmed_len(s.subrange(0, start - 1));
    }
    lemma_after_last(s.take(trimmed_len(s)), '/');
}

/// What trimming leaves: the same components, and a last segment that
/// names something, unless nothing or only the root is left.
pub proof fn lemma_trimmed_shape(s: Seq<char>)
    ensures
        components(s.take(trimmed_len(s))) == components(s),
        name_start(s) >= 1 && is_skipped(last_segment(s)) ==> trimmed_len(s) == 1,
    decreases s.len(),
{
    let start = last_segment_start(s);
    lemma_after_last(s, '/');
    let segment = s.subrange(start, s.len() as int);
    if 2 <= start && is_skipped(segment) {
        let head = s.subrange(0, start - 1);
        lemma_trimmed_shape(head);
        lemma_trimmed_len(head);
        assert(head.take(trimmed_len(head)) =~= s.take(trimmed_len(s)));
        assert(later_component(segment) =~= Seq::<Component>::empty());
        assert(components(s) =~= components(head));
    } else if start == 1 && is_skipped(segment) {
        lemma_components_closed(s, 1);
        assert(later_component(segment) =~= Seq::<Component>::empty());
        assert(components(s) =~= seq![Component::RootDir]);
        assert(s.take(1).last() == '/');
    } else {
        assert(s.take(s.len() as int) =~= s);
    }
}

/// Where trimming cuts a path that has a last component, it cuts at a
/// separator.
pub proof fn lemma_trimmed_at_separator(s: Seq<char>)
    requires
        last_segment(s).len() > 0,
        trimmed_len(s) < s.len(),
    ensures
        0 <= trimmed_len(s),
        s[trimmed_len(s)] == '/',
    decreases s.len(),
{
    let start = last_segment_start(s);
    lemma_after_last(s, '/');
    lemma_trimmed_len(s);
    let segment = s.subrange(start, s.len() as int);
    if 2 <= start && is_skipped(segment) {
        let head = s.subrange(0, start - 1);
        lemma_trimmed_len(head);
        assert(head.take(trimmed_len(head)) =~= s.take(trimmed_len(s)));
        if trimmed_len(head) < head.len() {
            assert(last_segment(head) =~= last_segment(s));
            lemma_trimmed_at_separator(head);
        }
    } else if start == 1 && is_skipped(segment) {
        assert(s.take(1).last() == '/');
        assert(last_segment_start(s.take(1)) == 1);
    }
}

/// The file name of a path is its last component, where that is a name.
pub proof fn lemma_file_name_is_last_component(s: Seq<char>)
    ensures
        match file_name(s) {
            Some(name) => components(s).len() > 0 && components(s).last() == Component::Normal(
                name,
            ),
            None => components(s).len() == 0 || !(components(s).last() is Normal),
        },
{
    lemma_trimmed_shape(s);
    lemma_trimmed_len(s);
    let trimmed = s.take(trimmed_len(s));
    let start = name_start(s);
    let segment = last_segment(s);
    assert(trimmed.subrange(start, trimmed.len() as int) =~= segment);
    if start >= 2 {
        assert(components(trimmed) == components(trimmed.subrange(0, start - 1)) + later_component(
            segment,
        ));
    }
}

/// The parent of a path has all its components but the last. The empty
/// path and the root have no parent.
pub proof fn lemma_parent_drops_last_component(s: Seq<char>)
    ensures
        match parent(s) {
            Some(up) => components(s).len() > 0 && !(components(s).last() is RootDir)
                && components(up) == components(s).drop_last(),
            None => components(s).len() == 0 || components(s).last() is RootDir,
        },
{
    lemma_trimmed_shape(s);
    lemma_trimmed_len(s);
    let trimmed = s.take(trimmed_len(s));
    let start = name_start(s);
    let segment = last_segment(s);
    assert(trimmed.subrange(start, trimmed.len() as int) =~= segment);
    if segment.len() == 0 {
    } else if start == 0 {
        assert(s.take(0) =~= Seq::<char>::empty());
        assert(components(s.take(0)) =~= Seq::<Component>::empty());
        assert(components(s).drop_last() =~= Seq::<Component>::empty());
    } else if start == 1 {
        lemma_after_last(trimmed, '/');
        lemma_components_closed(s, 1);
        assert(components(s).drop_last() =~= seq![Component::RootDir]);
    } else {
        let head = trimmed.subrange(0, start - 1);
        assert(head =~= s.take(start - 1));
        lemma_trimmed_shape(head);
        assert(components(trimmed) == components(head) + later_component(segment));
        assert(components(s).drop_last() =~= components(head));
        lemma_trimmed_len(head);
        assert(head.take(trimmed_len(head)) =~= s.take(trimmed_len(head)));
    }
}

/// A new extension makes another path of a path that has a file name,
/// unless the file name has that extension already.
pub proof fn lemma_new_extension_changes_path(s: Seq<char>, ext: Seq<char>)
    requires
        file_name(s) is Some,
        extension(s) != Some(ext),
        ext.len() > 0,
        !ext.contains('/'),
    ensures
        with_extension(s, ext) != s,
{
    let name = file_name(s)->Some_0;
    let changed = with_extension(s, ext);
    lemma_trimmed_len(s);
    lemma_after_last(name, '.');
    let cut = name_start(s) + stem_len(name);
    let tail = seq!['.'] + ext;
    assert(changed =~= s.take(cut) + tail);
    if changed == s {
        assert(s.len() == cut + 1 + ext.len());
        if trimmed_len(s) < s.len() {
            lemma_trimmed_at_separator(s);
            let at = trimmed_len(s);
            assert(changed[at] == tail[at - cut]);
            if at > cut {
                assert(ext[at - cut - 1] == '/');
            }
        }
        let dot = after_last(name, '.');
        assert(name.len() == stem_len(name) + 1 + ext.len());
        assert(name.subrange(dot, name.len() as int) =~= ext) by {
            assert forall|i: int| 0 <= i < ext.len() implies name[dot + i] == ext[i] by {
                assert(name[dot + i] == s[name_start(s) + dot + i]);
                assert(changed[cut + 1 + i] == tail[1 + i]);
            }
        }
    }
}

} // verus!
