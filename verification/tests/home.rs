//! Text with a home prefix.

use softpath::config::Config;
use softpath::operations::Operation;
use softpath::home::{place_in_home, resolve_text, strip_home_prefix, Home};
use softpath::protocol::{Action, Event, Value};
use softpath::grammar::Separators;
use softpath::environment::{Environment, ErrorDetail, HiddenRule};
use softpath::{PathExt, SoftPath, SoftPathError};

fn env() -> Environment {
    Environment {
        config: Config::new(),
        cwd: Ok(SoftPath::new("/work")),
        detail: ErrorDetail::Full,
        hidden: HiddenRule::LeadingDot,
        separators: Separators::Slash,
    }
}

/// Drives an operation over a filesystem without symbolic links.
fn validate(mut op: Operation) -> Result<Value, SoftPathError> {
    let mut event = Event::Start;
    loop {
        match op.step(event) {
            Action::Finish(outcome) => return outcome,
            Action::IsSymlink(_) => event = Event::Flag(false),
            other => panic!("unexpected action {:?}", other),
        }
    }
}

#[test]
fn the_prefix_is_a_tilde_and_a_separator() {
    assert_eq!(strip_home_prefix("~/a/b"), Some(SoftPath::new("a/b")));
    assert_eq!(strip_home_prefix("~\\a"), Some(SoftPath::new("a")));
    assert_eq!(strip_home_prefix("~/"), Some(SoftPath::new("")));
    assert_eq!(strip_home_prefix("~"), None);
    assert_eq!(strip_home_prefix("~a/b"), None);
    assert_eq!(strip_home_prefix("a/~/b"), None);
    assert_eq!(strip_home_prefix(""), None);
    assert_eq!(strip_home_prefix("~/é/ü"), Some(SoftPath::new("é/ü")));
}

#[test]
fn the_rest_is_placed_below_the_home_directory() {
    let rest = SoftPath::new("docs/a.txt");
    assert_eq!(
        place_in_home(Home::Dir("/home/alice".to_string()), &rest, Separators::Slash),
        Ok(SoftPath::new("/home/alice/docs/a.txt"))
    );
    assert_eq!(
        place_in_home(Home::Dir("/home/alice/".to_string()), &rest, Separators::Slash),
        Ok(SoftPath::new("/home/alice/docs/a.txt"))
    );
    assert_eq!(place_in_home(Home::Absent, &rest, Separators::Slash), Err(SoftPathError::HomeDirNotFound));
    assert_eq!(
        place_in_home(Home::NotText, &rest, Separators::Slash),
        Err(SoftPathError::InvalidPath("Home directory is not valid text".to_string()))
    );
    // An absolute rest stands alone, as in every join.
    assert_eq!(
        place_in_home(Home::Dir("/home/alice".to_string()), &SoftPath::new("/etc"), Separators::Slash),
        Ok(SoftPath::new("/etc"))
    );
}

#[test]
fn text_without_prefix_is_the_path() {
    assert_eq!(resolve_text("a/b", &env()), Ok(SoftPath::new("a/b")));
    assert_eq!(resolve_text("/x/~/y", &env()), Ok(SoftPath::new("/x/~/y")));
    assert_eq!(
        resolve_text("a\0", &env()),
        Err(SoftPathError::InvalidPath("Path contains null bytes".to_string()))
    );
}

#[test]
fn the_rest_is_checked_before_the_home_directory_is_asked() {
    // Under the working directory `/work` three steps up leave the root.
    match resolve_text("~/../../../etc/passwd", &env()) {
        Err(SoftPathError::PathTraversal(shown)) => {
            assert_eq!(shown, "/work/../../../etc/passwd")
        }
        other => panic!("expected a traversal rejection, got {:?}", other),
    }
    let small = Environment { config: Config::new().with_max_path_depth(2), ..env() };
    assert_eq!(resolve_text("~/a/b/c", &small), Err(SoftPathError::PathDepthExceeded(2)));
}

#[test]
fn the_home_directory_is_the_platforms() {
    let expected = match dirs::home_dir() {
        None => Err(SoftPathError::HomeDirNotFound),
        Some(home) => match home.to_str() {
            Some(text) => Ok(SoftPath::new(text).join(&SoftPath::new("notes/today.md"))),
            None => Err(SoftPathError::InvalidPath("Home directory is not valid text".to_string())),
        },
    };
    assert_eq!(resolve_text("~/notes/today.md", &env()), expected);
    if let Ok(path) = &expected {
        assert!(path.text.ends_with("/notes/today.md"));
        assert_ne!(path.text, "notes/today.md");
        assert_eq!(validate("~/notes/today.md".into_path(&env())), Ok(Value::Path(path.duplicate())));
    }
}

#[test]
fn backslashes_are_read_as_separators_where_the_rule_says_so() {
    let windows = Environment { separators: Separators::SlashAndBackslash, ..env() };
    assert_eq!(resolve_text("a\\b\\c.txt", &windows), Ok(SoftPath::new("a/b/c.txt")));
    assert_eq!(resolve_text("a\\b", &env()), Ok(SoftPath::new("a\\b")));
    assert_eq!(
        place_in_home(
            Home::Dir("C:\\Users\\alice".to_string()),
            &SoftPath::new("docs"),
            Separators::SlashAndBackslash
        ),
        Ok(SoftPath::new("C:/Users/alice/docs"))
    );
    // What follows the prefix is checked as the rule reads it.
    match resolve_text("~\\..\\..\\..\\secret", &windows) {
        Err(SoftPathError::PathTraversal(shown)) => assert_eq!(shown, "/work/../../../secret"),
        other => panic!("expected a traversal rejection, got {:?}", other),
    }
}
