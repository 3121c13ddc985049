//! Text as a path: a leading `~/` or `~\` stands for the user's home
//! directory.

use vstd::prelude::*;
use vstd::string::StringExecFns;

use crate::environment::{Environment, EnvironmentView};
use crate::error::{ErrorView, SoftPathError};
use crate::grammar::{join, slashed, Separators};
use crate::path::{text_chars, SoftPath};
use crate::traversal::{check_path_traversal, traversal_verdict};

verus! {

/// What the platform knows of the user's home directory.
#[derive(Debug, Clone, PartialEq, Eq)]
pub enum Home {
    /// No home directory can be determined.
    Absent,
    /// There is one, but its path is not valid text.
    NotText,
    /// The home directory.
    Dir(String),
}

/// Mathematical model of a [`Home`].
pub enum HomeView {
    Absent,
    NotText,
    Dir(Seq<char>),
}

impl View for Home {
    type V = HomeView;

    open spec fn view(&self) -> HomeView {
        match *self {
            Home::Absent => HomeView::Absent,
            Home::NotText => HomeView::NotText,
            Home::Dir(text) => HomeView::Dir(text@),
        }
    }
}

/// What follows the home prefix of a text, where it has one.
pub open spec fn home_rest(text: Seq<char>) -> Option<Seq<char>> {
    if text.len() >= 2 && text[0] == '~' && (text[1] == '/' || text[1] == '\\') {
        Some(text.skip(2))
    } else {
        None
    }
}

/// The path that `rest` names below the home directory, which is read by
/// the rule for separators.
pub open spec fn home_placement(home: HomeView, rest: Seq<char>, separators: Separators) -> Result<
    Seq<char>,
    ErrorView,
> {
    match home {
        HomeView::Absent => Err(ErrorView::HomeDirNotFound),
        HomeView::NotText => Err(ErrorView::InvalidPath("Home directory is not valid text"@)),
        HomeView::Dir(dir) => Ok(join(slashed(dir, separators), rest)),
    }
}

/// The text as the environment's rule for separators reads it.
pub open spec fn read_text(text: Seq<char>, env: EnvironmentView) -> Seq<char> {
    slashed(text, env.separators)
}

/// The path that a text stands for. The text is read by the environment's
/// rule for separators. A text with a NUL character is rejected; what follows a home prefix must pass the traversal check
/// before the home directory is looked up, so that no escape hides behind
/// the prefix.
pub open spec fn text_resolution(text: Seq<char>, home: HomeView, env: EnvironmentView) -> Result<
    Seq<char>,
    ErrorView,
> {
    if read_text(text, env).contains('\0') {
        Err(ErrorView::InvalidPath("Path contains null bytes"@))
    } else {
        match home_rest(read_text(text, env)) {
            None => Ok(read_text(text, env)),
            Some(rest) => match traversal_verdict(rest, env) {
                Err(error) => Err(error),
                Ok(_) => home_placement(home, rest, env.separators),
            },
        }
    }
}

/// Whether the resolution of `text` asks for the home directory at all.
pub open spec fn asks_for_home(text: Seq<char>, env: EnvironmentView) -> bool {
    &&& !read_text(text, env).contains('\0')
    &&& home_rest(read_text(text, env)) matches Some(rest)
    &&& traversal_verdict(rest, env) is Ok
}

/// Mathematical model of a resolved path or its rejection.
pub open spec fn resolved_view(resolved: Result<SoftPath, SoftPathError>) -> Result<
    Seq<char>,
    ErrorView,
> {
    match resolved {
        Ok(path) => Ok(path@),
        Err(error) => Err(error@),
    }
}

/// Asks the platform for the user's home directory, through
/// `dirs::home_dir`. The answer depends on the process's environment, so
/// nothing is claimed of it; a path that is not valid text is reported as
/// such.
#[verifier::external_body]
fn home_dir() -> (home: Home) {
    match dirs::home_dir() {
        None => Home::Absent,
        Some(path) => match path.into_os_string().into_string() {
            Ok(text) => Home::Dir(text),
            Err(_) => Home::NotText,
        },
    }
}

/// What follows the home prefix of `text`, where it has one.
pub fn strip_home_prefix(text: &str) -> (rest: Option<SoftPath>)
    ensures
        match rest {
            Some(path) => home_rest(text@) == Some(path@),
            None => home_rest(text@) is None,
        },
{
    let chars = text_chars(text);
    if chars.len() >= 2 && chars[0] == '~' && (chars[1] == '/' || chars[1] == '\\') {
        let rest = SoftPath::new(text.substring_char(2, chars.len()));
        assert(rest@ =~= text@.skip(2));
        Some(rest)
    } else {
        None
    }
}

/// Places `rest` below the home directory.
pub fn place_in_home(home: Home, rest: &SoftPath, separators: Separators) -> (placed: Result<
    SoftPath,
    SoftPathError,
>)
    ensures
        resolved_view(placed) == home_placement(home@, rest@, separators),
{
    match home {
        Home::Absent => Err(SoftPathError::HomeDirNotFound),
        Home::NotText => Err(
            SoftPathError::InvalidPath(String::from_str("Home directory is not valid text")),
        ),
        Home::Dir(dir) => {
            let base = SoftPath { text: dir }.slashed(separators);
            Ok(base.join(rest))
        },
    }
}

/// Turns text into a path, with the home directory that the platform
/// reports where the text asks for it.
pub fn resolve_text(text: &str, env: &Environment) -> (resolved: Result<SoftPath, SoftPathError>)
    ensures
        exists|home: HomeView| resolved_view(resolved) == #[trigger] text_resolution(text@, home, env@),
{
    let path = SoftPath::new(text).slashed(env.separators);
    if path.has_nul() {
        let rejected = Err(
            SoftPathError::InvalidPath(String::from_str("Path contains null bytes")),
        );
        assert(resolved_view(rejected) == text_resolution(text@, HomeView::Absent, env@));
        return rejected;
    }
    match strip_home_prefix(path.as_str()) {
        None => {
            assert(resolved_view(Ok(path)) == text_resolution(text@, HomeView::Absent, env@));
            Ok(path)
        },
        Some(rest) => match check_path_traversal(&rest, env) {
            Err(error) => {
                assert(resolved_view(Err(error)) == text_resolution(text@, HomeView::Absent, env@));
                Err(error)
            },
            Ok(_) => {
                let home = home_dir();
                let placed = place_in_home(home, &rest, env.separators);
                assert(resolved_view(placed) == text_resolution(text@, home@, env@));
                placed
            },
        },
    }
}

} // verus!
