//! Paths, held as the text they were written as.

use vstd::prelude::*;
use vstd::std_specs::iter::IteratorSpec;
use vstd::string::StringExecFns;

use crate::grammar::{
    after_last, components, extension, file_name, is_absolute, is_dot, is_dot_dot, is_skipped,
    join, kinds_of, last_segment, last_segment_start, lemma_after_last, lemma_after_last_step,
    lemma_components_closed, lemma_components_open, name_start, parent, same_path,
    segment_component, slashed, span_component, spans_components, trimmed_len, with_extension,
    Component, ComponentKind, Separators, Span,
};

verus! {

/// A path, held as the text it was written as.
#[derive(Debug, Clone, PartialEq, Eq, Hash)]
pub struct SoftPath {
    pub text: String,
}

impl View for SoftPath {
    type V = Seq<char>;

    open spec fn view(&self) -> Seq<char> {
        self.text@
    }
}

impl SoftPath {
    /// The path written as `text`.
    pub fn new(text: &str) -> (path: SoftPath)
        ensures
            path@ == text@,
    {
        SoftPath { text: text.to_owned() }
    }

    /// The path's text.
    pub fn as_str(&self) -> (text: &str)
        ensures
            text@ == self@,
    {
        self.text.as_str()
    }

    /// A copy with the same text.
    pub fn duplicate(&self) -> (copy: SoftPath)
        ensures
            copy@ == self@,
    {
        SoftPath { text: self.text.clone() }
    }

    /// The path in the library's own writing: under the rule that takes
    /// both separators, every `\` becomes a `/`.
    pub fn slashed(&self, rule: Separators) -> (read: SoftPath)
        ensures
            read@ == slashed(self@, rule),
    {
        match rule {
            Separators::Slash => self.duplicate(),
            Separators::SlashAndBackslash => {
                let chars = text_chars(self.as_str());
                let n = chars.len();
                let ghost whole = slashed(self@, rule);
                let mut text = String::new();
                let mut start: usize = 0;
                let mut i: usize = 0;
                proof {
                    reveal_strlit("/");
                    assert(text@ =~= whole.take(0));
                }
                while i < n
                    invariant
                        n == chars.len(),
                        chars@ == self@,
                        start <= i <= n,
                        whole == slashed(self@, Separators::SlashAndBackslash),
                        "/"@ == seq!['/'],
                        text@ == whole.take(start as int),
                        forall|j: int| start <= j < i ==> chars@[j] != '\\',
                    decreases n - i,
                {
                    if chars[i] == '\\' {
                        let ghost before = text@;
                        text.append(self.as_str().substring_char(start, i));
                        text.append("/");
                        assert(text@ =~= whole.take(i + 1)) by {
                            assert(text@ == before + self@.subrange(start as int, i as int)
                                + seq!['/']);
                        }
                        start = i + 1;
                    }
                    i += 1;
                }
                let ghost before = text@;
                text.append(self.as_str().substring_char(start, n));
                assert(text@ =~= whole) by {
                    assert(text@ == before + self@.subrange(start as int, n as int));
                }
                SoftPath { text }
            },
        }
    }

    /// Whether the path begins at the root.
    pub fn is_absolute(&self) -> (absolute: bool)
        ensures
            absolute == is_absolute(self@),
    {
        let text = self.as_str();
        text.unicode_len() > 0 && text.get_char(0) == '/'
    }

    /// Whether the text holds a NUL character, which no filesystem accepts.
    pub fn has_nul(&self) -> (found: bool)
        ensures
            found == self@.contains('\0'),
    {
        let chars = text_chars(self.as_str());
        let mut i: usize = 0;
        while i < chars.len()
            invariant
                i <= chars.len(),
                chars@ == self@,
                forall|j: int| 0 <= j < i ==> chars@[j] != '\0',
            decreases chars.len() - i,
        {
            if chars[i] == '\0' {
                assert(self@[i as int] == '\0');
                return true;
            }
            i += 1;
        }
        false
    }

    /// `other` resolved against this path.
    pub fn join(&self, other: &SoftPath) -> (joined: SoftPath)
        ensures
            joined@ == join(self@, other@),
    {
        if other.is_absolute() {
            return other.duplicate();
        }
        let mut text = self.text.clone();
        let len = text.as_str().unicode_len();
        if len > 0 && text.as_str().get_char(len - 1) != '/' {
            proof {
                reveal_strlit("/");
            }
            text.append("/");
            assert(text@ =~= self@ + seq!['/']);
        }
        text.append(other.as_str());
        SoftPath { text }
    }

    /// The final component of the path, if it is a name.
    pub fn name(&self) -> (name: Option<String>)
        ensures
            match name {
                Some(n) => file_name(self@) == Some(n@),
                None => file_name(self@) is None,
            },
    {
        let chars = text_chars(self.as_str());
        let (start, end) = last_span(&chars);
        let len = end - start;
        let dot = len == 1 && chars[start] == '.';
        let dot_dot = len == 2 && chars[start] == '.' && chars[start + 1] == '.';
        let ghost segment = self@.subrange(start as int, end as int);
        assert(segment == last_segment(self@));
        assert(dot == is_dot(segment));
        assert(dot_dot == is_dot_dot(segment));
        if len == 0 || dot || dot_dot {
            None
        } else {
            let name = self.as_str().substring_char(start, end).to_owned();
            assert(name@ == segment);
            Some(name)
        }
    }

    /// The extension of the path's file name.
    pub fn ext(&self) -> (ext: Option<String>)
        ensures
            match ext {
                Some(e) => extension(self@) == Some(e@),
                None => extension(self@) is None,
            },
    {
        match self.name() {
            None => None,
            Some(name) => {
                let chars = text_chars(name.as_str());
                let dot = after_last_in(&chars, chars.len(), '.');
                proof {
                    assert(chars@.take(chars.len() as int) =~= chars@);
                }
                if dot <= 1 {
                    None
                } else {
                    Some(name.as_str().substring_char(dot, chars.len()).to_owned())
                }
            },
        }
    }

    /// The path without its final component.
    pub fn parent(&self) -> (up: Option<SoftPath>)
        ensures
            match up {
                Some(p) => parent(self@) == Some(p@),
                None => parent(self@) is None,
            },
    {
        let chars = text_chars(self.as_str());
        let (start, end) = last_span(&chars);
        if end - start == 0 {
            None
        } else if start <= 1 {
            Some(SoftPath::new(self.as_str().substring_char(0, start)))
        } else {
            let cut = trimmed_end(&chars, start - 1);
            Some(SoftPath::new(self.as_str().substring_char(0, cut)))
        }
    }

    /// The path with the extension of its file name replaced by `ext`.
    pub fn with_extension(&self, ext: &str) -> (changed: SoftPath)
        ensures
            changed@ == with_extension(self@, ext@),
    {
        match self.name() {
            None => self.duplicate(),
            Some(name) => {
                let chars = text_chars(self.as_str());
                let (start, end) = last_span(&chars);
                let name_chars = text_chars(name.as_str());
                let dot = after_last_in(&name_chars, name_chars.len(), '.');
                proof {
                    assert(name_chars@.take(name_chars.len() as int) =~= name_chars@);
                    lemma_after_last(name@, '.');
                }
                let stem = if dot <= 1 {
                    name_chars.len()
                } else {
                    dot - 1
                };
                let mut text = self.as_str().substring_char(0, start + stem).to_owned();
                if ext.unicode_len() > 0 {
                    proof {
                        reveal_strlit(".");
                    }
                    text.append(".");
                    text.append(ext);
                    assert(text@ =~= self@.take(start + stem) + seq!['.'] + ext@);
                }
                SoftPath { text }
            },
        }
    }

    /// The kinds of the path's components, in order.
    pub fn component_kinds(&self) -> (kinds: Vec<ComponentKind>)
        ensures
            kinds@ == kinds_of(components(self@)),
    {
        let chars = text_chars(self.as_str());
        let spans = component_spans(&chars);
        let mut kinds: Vec<ComponentKind> = Vec::new();
        let mut i: usize = 0;
        while i < spans.len()
            invariant
                i <= spans.len(),
                kinds.len() == i,
                forall|j: int| 0 <= j < i ==> kinds@[j] == spans@[j].kind,
            decreases spans.len() - i,
        {
            kinds.push(spans[i].kind);
            i += 1;
        }
        assert(kinds@ =~= kinds_of(spans_components(chars@, spans@)));
        kinds
    }

    /// Whether the two texts are the same path: component by component, so
    /// that neither a doubled or trailing separator nor a `.` segment
    /// tells two paths apart.
    pub fn same_components(&self, other: &SoftPath) -> (same: bool)
        ensures
            same == same_path(self@, other@),
    {
        let ours = text_chars(self.as_str());
        let theirs = text_chars(other.as_str());
        let our_spans = component_spans(&ours);
        let their_spans = component_spans(&theirs);
        if our_spans.len() != their_spans.len() {
            assert(components(self@).len() == our_spans.len());
            assert(components(other@).len() == their_spans.len());
            return false;
        }
        let mut i: usize = 0;
        while i < our_spans.len()
            invariant
                i <= our_spans.len(),
                our_spans.len() == their_spans.len(),
                ours@ == self@,
                theirs@ == other@,
                spans_components(ours@, our_spans@) == components(ours@),
                spans_components(theirs@, their_spans@) == components(theirs@),
                forall|j: int|
                    0 <= j < our_spans.len() ==> (#[trigger] our_spans@[j]).start
                        <= our_spans@[j].end <= ours.len(),
                forall|j: int|
                    0 <= j < their_spans.len() ==> (#[trigger] their_spans@[j]).start
                        <= their_spans@[j].end <= theirs.len(),
                forall|j: int|
                    0 <= j < i ==> span_component(ours@, our_spans@[j]) == span_component(
                        theirs@,
                        their_spans@[j],
                    ),
            decreases our_spans.len() - i,
        {
            if !same_span(&ours, our_spans[i], &theirs, their_spans[i]) {
                assert(components(ours@)[i as int] == span_component(ours@, our_spans@[i as int]));
                assert(components(theirs@)[i as int] == span_component(
                    theirs@,
                    their_spans@[i as int],
                ));
                return false;
            }
            i += 1;
        }
        assert(spans_components(ours@, our_spans@) =~= spans_components(theirs@, their_spans@));
        true
    }
}

/// The spans of the components of `chars`, in order.
fn component_spans(chars: &Vec<char>) -> (spans: Vec<Span>)
    ensures
        spans_components(chars@, spans@) == components(chars@),
        forall|j: int|
            0 <= j < spans.len() ==> (#[trigger] spans@[j]).start <= spans@[j].end <= chars.len(),
{
    let n = chars.len();
    let mut spans: Vec<Span> = Vec::new();
    let mut start: usize = 0;
    let mut i: usize = 0;
    proof {
        assert(chars@.take(0) =~= Seq::<char>::empty());
        assert(spans_components(chars@, spans@) =~= components(Seq::<char>::empty()));
    }
    while i < n
        invariant
            n == chars.len(),
            start <= i <= n,
            start == last_segment_start(chars@.take(i as int)),
            spans_components(chars@, spans@) == components(chars@.take(start as int)),
            forall|j: int|
                0 <= j < spans.len() ==> (#[trigger] spans@[j]).start <= spans@[j].end
                    <= chars.len(),
        decreases n - i,
    {
        proof {
            lemma_after_last_step(chars@, '/', i as int);
        }
        if chars[i] == '/' {
            let closed = if i == 0 {
                Some(Span { kind: ComponentKind::RootDir, start: 0, end: 1 })
            } else {
                segment_span(chars, start, i, start == 0)
            };
            let ghost before = spans@;
            match closed {
                Some(span) => {
                    spans.push(span);
                },
                None => {},
            }
            proof {
                let prefix = chars@.take(i as int);
                lemma_components_closed(chars@, i + 1);
                if i > 0 {
                    lemma_components_open(prefix);
                    assert(prefix.take(start as int) =~= chars@.take(start as int));
                    assert(prefix.subrange(start as int, i as int) =~= chars@.subrange(
                        start as int,
                        i as int,
                    ));
                }
                match closed {
                    Some(span) => {
                        assert(spans_components(chars@, spans@) =~= spans_components(
                            chars@,
                            before,
                        ) + seq![span_component(chars@, span)]);
                    },
                    None => {
                        assert(spans_components(chars@, spans@) =~= spans_components(
                            chars@,
                            before,
                        ) + Seq::<Component>::empty());
                    },
                }
            }
            start = i + 1;
        }
        i += 1;
    }
    let last = segment_span(chars, start, n, start == 0);
    let ghost before = spans@;
    match last {
        Some(span) => {
            spans.push(span);
        },
        None => {},
    }
    proof {
        assert(chars@.take(n as int) =~= chars@);
        lemma_components_open(chars@);
        match last {
            Some(span) => {
                assert(spans_components(chars@, spans@) =~= spans_components(chars@, before)
                    + seq![span_component(chars@, span)]);
            },
            None => {
                assert(spans_components(chars@, spans@) =~= spans_components(chars@, before)
                    + Seq::<Component>::empty());
            },
        }
    }
    spans
}

/// Whether two spans, each of its own text, stand for the same component.
fn same_span(ours: &Vec<char>, a: Span, theirs: &Vec<char>, b: Span) -> (same: bool)
    requires
        a.start <= a.end <= ours.len(),
        b.start <= b.end <= theirs.len(),
    ensures
        same == (span_component(ours@, a) == span_component(theirs@, b)),
{
    match (a.kind, b.kind) {
        (ComponentKind::RootDir, ComponentKind::RootDir) => true,
        (ComponentKind::CurDir, ComponentKind::CurDir) => true,
        (ComponentKind::ParentDir, ComponentKind::ParentDir) => true,
        (ComponentKind::Normal, ComponentKind::Normal) => {
            let ghost left = ours@.subrange(a.start as int, a.end as int);
            let ghost right = theirs@.subrange(b.start as int, b.end as int);
            if a.end - a.start != b.end - b.start {
                assert(left.len() != right.len());
                return false;
            }
            let len = a.end - a.start;
            let mut k: usize = 0;
            while k < len
                invariant
                    k <= len,
                    a.kind == ComponentKind::Normal,
                    b.kind == ComponentKind::Normal,
                    len == a.end - a.start,
                    len == b.end - b.start,
                    a.end <= ours.len(),
                    b.end <= theirs.len(),
                    left == ours@.subrange(a.start as int, a.end as int),
                    right == theirs@.subrange(b.start as int, b.end as int),
                    forall|j: int| 0 <= j < k ==> left[j] == right[j],
                decreases len - k,
            {
                if ours[a.start + k] != theirs[b.start + k] {
                    assert(left[k as int] != right[k as int]);
                    return false;
                }
                k += 1;
            }
            assert(left =~= right);
            true
        },
        _ => false,
    }
}

/// The characters of `text`, one by one.
pub fn text_chars(text: &str) -> (chars: Vec<char>)
    ensures
        chars@ == text@,
{
    let mut chars: Vec<char> = Vec::new();
    for c in it: text.chars()
        invariant
            chars@ == text@.take(it.index() as int),
            it.seq() == text@,
    {
        chars.push(c);
    }
    chars
}

/// One more than the index of the last `mark` before `end`.
fn after_last_in(chars: &Vec<char>, end: usize, mark: char) -> (at: usize)
    requires
        end <= chars.len(),
    ensures
        at == after_last(chars@.take(end as int), mark),
        at <= end,
{
    let mut at = end;
    while at > 0 && chars[at - 1] != mark
        invariant
            at <= end <= chars.len(),
            after_last(chars@.take(end as int), mark) == after_last(chars@.take(at as int), mark),
        decreases at,
    {
        proof {
            assert(chars@.take(at as int).drop_last() =~= chars@.take(at - 1));
        }
        at -= 1;
    }
    at
}

/// The trimmed length of the first `end` characters.
fn trimmed_end(chars: &Vec<char>, end: usize) -> (cut: usize)
    requires
        end <= chars.len(),
    ensures
        cut == trimmed_len(chars@.take(end as int)),
        cut <= end,
{
    let mut cut = end;
    loop
        invariant
            cut <= end <= chars.len(),
            trimmed_len(chars@.take(end as int)) == trimmed_len(chars@.take(cut as int)),
        decreases cut,
    {
        let start = after_last_in(chars, cut, '/');
        let len = cut - start;
        let skipped = len == 0 || (len == 1 && chars[start] == '.');
        proof {
            let prefix = chars@.take(cut as int);
            assert(skipped == is_skipped(prefix.subrange(start as int, cut as int)));
            if start >= 2 {
                assert(prefix.subrange(0, start - 1) =~= chars@.take(start - 1));
            }
        }
        if start >= 2 && skipped {
            cut = start - 1;
        } else if start == 1 && skipped {
            return 1;
        } else {
            return cut;
        }
    }
}

/// Where the last component begins and ends.
fn last_span(chars: &Vec<char>) -> (span: (usize, usize))
    ensures
        span.0 == name_start(chars@),
        span.1 == trimmed_len(chars@),
        span.0 <= span.1 <= chars.len(),
{
    let end = trimmed_end(chars, chars.len());
    proof {
        assert(chars@.take(chars.len() as int) =~= chars@);
    }
    let start = after_last_in(chars, end, '/');
    (start, end)
}

/// The component that the segment `chars[start..end]` stands for, as a
/// span.
fn segment_span(chars: &Vec<char>, start: usize, end: usize, first: bool) -> (span: Option<Span>)
    requires
        start <= end <= chars.len(),
    ensures
        segment_component(chars@.subrange(start as int, end as int), first) == match span {
            Some(s) => seq![span_component(chars@, s)],
            None => Seq::<Component>::empty(),
        },
        span matches Some(s) ==> s.start == start && s.end == end,
{
    let ghost segment = chars@.subrange(start as int, end as int);
    let len = end - start;
    let dot = len == 1 && chars[start] == '.';
    let dot_dot = len == 2 && chars[start] == '.' && chars[start + 1] == '.';
    assert(dot == is_dot(segment));
    assert(dot_dot == is_dot_dot(segment));
    let kind = if len == 0 {
        None
    } else if dot {
        if first {
            Some(ComponentKind::CurDir)
        } else {
            None
        }
    } else if dot_dot {
        Some(ComponentKind::ParentDir)
    } else {
        Some(ComponentKind::Normal)
    };
    let span = match kind {
        Some(kind) => Some(Span { kind, start, end }),
        None => None,
    };
    proof {
        let parts = segment_component(segment, first);
        match span {
            Some(s) => {
                assert(parts =~= seq![span_component(chars@, s)]);
            },
            None => {
                assert(parts =~= Seq::<Component>::empty());
            },
        }
    }
    span
}

} // verus!
