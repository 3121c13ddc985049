//! The operations, driven against a filesystem that lives in memory.

use softpath::config::Config;
use softpath::error::{IoFailure, IoKind};
use softpath::operations::Operation;
use softpath::prelude::{PathExt, SoftPathError};
use softpath::protocol::{Action, Event, Outcome, Value};
use softpath::grammar::Separators;
use softpath::environment::{Environment, ErrorDetail, HiddenRule};
use softpath::SoftPath;
use std::collections::BTreeMap;

#[derive(Clone, Debug, PartialEq)]
enum Node {
    File(String),
    Dir,
    Link(String),
}

/// A small filesystem: directories, files and symbolic links under `/`.
struct MemFs {
    nodes: BTreeMap<String, Node>,
    cwd: String,
    log: Vec<Action>,
    count: u32,
}

fn failure(kind: IoKind, message: &str) -> IoFailure {
    IoFailure { kind, message: message.to_string() }
}

fn child(dir: &str, name: &str) -> String {
    if dir == "/" {
        format!("/{}", name)
    } else {
        format!("{}/{}", dir, name)
    }
}

fn up(dir: &str) -> String {
    match dir.rfind('/') {
        Some(0) | None => "/".to_string(),
        Some(at) => dir[..at].to_string(),
    }
}

fn env_with(config: Config) -> Environment {
    Environment {
        config,
        cwd: Ok(SoftPath::new("/work")),
        detail: ErrorDetail::Full,
        hidden: HiddenRule::LeadingDot,
        separators: Separators::Slash,
    }
}

impl MemFs {
    fn new() -> MemFs {
        let mut nodes = BTreeMap::new();
        for dir in ["/", "/work", "/tmp", "/home", "/home/user"] {
            nodes.insert(dir.to_string(), Node::Dir);
        }
        MemFs {
            nodes,
            cwd: "/work".to_string(),
            log: Vec::new(),
            count: 0,
        }
    }

    /// The place that `path` names: the key of its node, or of the node that
    /// would be created there.
    fn locate(&self, path: &str, follow: bool, hops: usize) -> Result<String, IoFailure> {
        if hops > 40 {
            return Err(failure(IoKind::Other, "too many levels of symbolic links"));
        }
        if path.is_empty() {
            return Err(failure(IoKind::NotFound, "empty path"));
        }
        let mut cur = if path.starts_with('/') { "/".to_string() } else { self.cwd.clone() };
        let parts: Vec<&str> = path.split('/').filter(|p| p.len() > 0 && *p != ".").collect();
        let forced = path.ends_with('/') || path.ends_with("/.");
        for (i, part) in parts.iter().enumerate() {
            match self.nodes.get(&cur) {
                Some(Node::Dir) => {}
                Some(_) => return Err(failure(IoKind::Other, "not a directory")),
                None => return Err(failure(IoKind::NotFound, "no such file or directory")),
            }
            if *part == ".." {
                cur = up(&cur);
                continue;
            }
            let next = child(&cur, part);
            let last = i + 1 == parts.len();
            match self.nodes.get(&next) {
                Some(Node::Link(target)) if !last || follow || forced => {
                    let base =
                        if target.starts_with('/') { target.clone() } else { child(&cur, target) };
                    cur = self.locate(&base, true, hops + 1)?;
                }
                _ => cur = next,
            }
        }
        Ok(cur)
    }

    fn node(&self, path: &str, follow: bool) -> Result<Option<(String, Node)>, IoFailure> {
        let key = self.locate(path, follow, 0)?;
        Ok(self.nodes.get(&key).map(|n| (key, n.clone())))
    }

    fn found(&self, path: &str, follow: bool) -> Result<(String, Node), IoFailure> {
        match self.node(path, follow)? {
            Some(hit) => Ok(hit),
            None => Err(failure(IoKind::NotFound, "no such file or directory")),
        }
    }

    fn is_dir(&self, path: &str) -> bool {
        matches!(self.node(path, true), Ok(Some((_, Node::Dir))))
    }

    fn is_file(&self, path: &str) -> bool {
        matches!(self.node(path, true), Ok(Some((_, Node::File(_)))))
    }

    fn is_symlink(&self, path: &str) -> bool {
        matches!(self.node(path, false), Ok(Some((_, Node::Link(_)))))
    }

    fn create_dir(&mut self, path: &str) -> Result<(), IoFailure> {
        let key = self.locate(path, true, 0)?;
        if self.nodes.contains_key(&key) {
            return Err(failure(IoKind::AlreadyExists, "file exists"));
        }
        if !matches!(self.nodes.get(&up(&key)), Some(Node::Dir)) {
            return Err(failure(IoKind::NotFound, "no such file or directory"));
        }
        self.nodes.insert(key, Node::Dir);
        Ok(())
    }

    fn create_dir_all(&mut self, path: &str) -> Result<(), IoFailure> {
        if path.is_empty() {
            return Ok(());
        }
        match self.create_dir(path) {
            Ok(()) => return Ok(()),
            Err(e) if e.kind == IoKind::NotFound => {}
            Err(_) if self.is_dir(path) => return Ok(()),
            Err(e) => return Err(e),
        }
        match std::path::Path::new(path).parent() {
            Some(parent) => self.create_dir_all(parent.to_str().unwrap())?,
            None => return Err(failure(IoKind::Other, "failed to create whole tree")),
        }
        match self.create_dir(path) {
            Ok(()) => Ok(()),
            Err(_) if self.is_dir(path) => Ok(()),
            Err(e) => Err(e),
        }
    }

    fn put_file(&mut self, key: String, text: String) -> Result<(), IoFailure> {
        if !matches!(self.nodes.get(&up(&key)), Some(Node::Dir)) {
            return Err(failure(IoKind::NotFound, "no such file or directory"));
        }
        self.nodes.insert(key, Node::File(text));
        Ok(())
    }

    fn create_new(&mut self, path: &str) -> Result<(), IoFailure> {
        let key = self.locate(path, false, 0)?;
        if self.nodes.contains_key(&key) {
            return Err(failure(IoKind::AlreadyExists, "file exists"));
        }
        self.put_file(key, String::new())
    }

    fn write(&mut self, path: &str, text: &str) -> Result<(), IoFailure> {
        let key = self.locate(path, true, 0)?;
        if matches!(self.nodes.get(&key), Some(Node::Dir)) {
            return Err(failure(IoKind::Other, "is a directory"));
        }
        self.put_file(key, text.to_string())
    }

    fn read(&self, path: &str) -> Result<String, IoFailure> {
        match self.found(path, true)? {
            (_, Node::File(text)) => Ok(text),
            _ => Err(failure(IoKind::Other, "is a directory")),
        }
    }

    fn take_tree(&mut self, key: &str) -> Vec<(String, Node)> {
        let below = format!("{}/", key);
        let keys: Vec<String> =
            self.nodes.keys().filter(|k| *k == key || k.starts_with(&below)).cloned().collect();
        keys.into_iter().map(|k| (k.clone(), self.nodes.remove(&k).unwrap())).collect()
    }

    fn rename(&mut self, from: &str, to: &str) -> Result<(), IoFailure> {
        let (source, _) = self.found(from, false)?;
        let target = self.locate(to, false, 0)?;
        if !matches!(self.nodes.get(&up(&target)), Some(Node::Dir)) {
            return Err(failure(IoKind::NotFound, "no such file or directory"));
        }
        if source == target {
            return Ok(());
        }
        self.take_tree(&target);
        for (key, node) in self.take_tree(&source) {
            self.nodes.insert(format!("{}{}", target, &key[source.len()..]), node);
        }
        Ok(())
    }

    fn remove_dir_all(&mut self, path: &str) -> Result<(), IoFailure> {
        let (key, _) = self.found(path, false)?;
        self.take_tree(&key);
        Ok(())
    }

    fn remove_file(&mut self, path: &str) -> Result<(), IoFailure> {
        match self.found(path, false)? {
            (_, Node::Dir) => Err(failure(IoKind::Other, "is a directory")),
            (key, _) => {
                self.nodes.remove(&key);
                Ok(())
            }
        }
    }

    fn dir_is_empty(&self, path: &str) -> Result<bool, IoFailure> {
        match self.found(path, true)? {
            (key, Node::Dir) => {
                let below = child(&key, "");
                Ok(!self.nodes.keys().any(|k| k.starts_with(&below) && *k != key))
            }
            _ => Err(failure(IoKind::Other, "not a directory")),
        }
    }

    fn symlink(&mut self, target: &str, link: &str) {
        let key = self.locate(link, false, 0).unwrap();
        self.nodes.insert(key, Node::Link(target.to_string()));
    }

    fn done(result: Result<(), IoFailure>) -> Event {
        match result {
            Ok(()) => Event::Done,
            Err(e) => Event::Failed(e),
        }
    }

    /// Carries out one action.
    fn perform(&mut self, action: &Action) -> Event {
        match action {
            Action::IsSymlink(p) => Event::Flag(self.is_symlink(&p.text)),
            Action::ReadLink(p) => match self.found(&p.text, false) {
                Ok((_, Node::Link(target))) => Event::Path(SoftPath::new(&target)),
                Ok(_) => Event::Failed(failure(IoKind::InvalidInput, "not a symbolic link")),
                Err(e) => Event::Failed(e),
            },
            Action::Exists(p) => Event::Flag(matches!(self.node(&p.text, true), Ok(Some(_)))),
            Action::IsFile(p) => Event::Flag(self.is_file(&p.text)),
            Action::IsDir(p) => Event::Flag(self.is_dir(&p.text)),
            Action::CreateDirAll(p) => MemFs::done(self.create_dir_all(&p.text)),
            Action::CreateNew(p) => MemFs::done(self.create_new(&p.text)),
            Action::WriteSynced(p, text) => MemFs::done(self.write(&p.text, text)),
            Action::Rename(from, to) => MemFs::done(self.rename(&from.text, &to.text)),
            Action::Copy(from, to) => {
                MemFs::done(self.read(&from.text).and_then(|text| self.write(&to.text, &text)))
            }
            Action::RemoveDirAll(p) => MemFs::done(self.remove_dir_all(&p.text)),
            Action::RemoveFile(p) => MemFs::done(self.remove_file(&p.text)),
            Action::ReadToString(p) => match self.read(&p.text) {
                Ok(text) => Event::Text(text),
                Err(e) => Event::Failed(e),
            },
            Action::FileLen(p) => match self.found(&p.text, true) {
                Ok((_, Node::File(text))) => Event::Number(text.len() as u64),
                Ok(_) => Event::Number(4096),
                Err(e) => Event::Failed(e),
            },
            Action::DirIsEmpty(p) => match self.dir_is_empty(&p.text) {
                Ok(empty) => Event::Flag(empty),
                Err(e) => Event::Failed(e),
            },
            Action::Attributes(p) => match self.found(&p.text, true) {
                Ok((key, _)) => Event::Number(if key.ends_with(".sys") { 0x22 } else { 0x20 }),
                Err(e) => Event::Failed(e),
            },
            Action::Canonicalize(p) => match self.found(&p.text, true) {
                Ok((key, _)) => Event::Path(SoftPath::new(&key)),
                Err(e) => Event::Failed(e),
            },
            Action::Finish(_) => unreachable!(),
        }
    }

    /// Drives an operation to its end, and keeps what it asked for.
    fn run(&mut self, mut op: Operation) -> Outcome {
        let mut event = Event::Start;
        let mut steps = 0;
        loop {
            steps += 1;
            assert!(steps < 1000, "the operation does not end");
            match op.step(event) {
                Action::Finish(outcome) => return outcome,
                action => {
                    event = self.perform(&action);
                    self.log.push(action);
                }
            }
        }
    }

    fn flag(&mut self, op: Operation) -> Result<bool, SoftPathError> {
        match self.run(op)? {
            Value::Flag(flag) => Ok(flag),
            other => panic!("expected a flag, got {:?}", other),
        }
    }

    fn unit(&mut self, op: Operation) -> Result<(), SoftPathError> {
        match self.run(op)? {
            Value::Unit => Ok(()),
            other => panic!("expected nothing, got {:?}", other),
        }
    }

    fn text(&mut self, op: Operation) -> Result<String, SoftPathError> {
        match self.run(op)? {
            Value::Text(text) => Ok(text),
            other => panic!("expected text, got {:?}", other),
        }
    }

    fn name(&mut self, op: Operation) -> Result<Option<String>, SoftPathError> {
        match self.run(op)? {
            Value::Name(name) => Ok(name),
            other => panic!("expected a name, got {:?}", other),
        }
    }

    fn path(&mut self, op: Operation) -> Result<SoftPath, SoftPathError> {
        match self.run(op)? {
            Value::Path(path) => Ok(path),
            other => panic!("expected a path, got {:?}", other),
        }
    }

    /// A fresh directory for one test.
    fn setup_test_dir(&mut self) -> SoftPath {
        self.count += 1;
        let dir = format!("/tmp/softpath_test_{}", self.count);
        self.create_dir_all(&dir).expect("Failed to create test directory");
        SoftPath::new(&dir)
    }

    fn cleanup_test_dir(&mut self, dir: &SoftPath) {
        self.remove_dir_all(&dir.text).expect("Failed to clean up test directory");
    }
}

fn join(base: &SoftPath, name: &str) -> SoftPath {
    base.join(&SoftPath::new(name))
}

#[test]
fn directory_operations_test_path_creation() {
    let mut fs = MemFs::new();
    let env = env_with(Config::new());
    let test_dir = fs.setup_test_dir();
    assert!(fs.flag(test_dir.try_exists(&env)).unwrap(), "Base test directory should exist");
    assert!(fs.flag(test_dir.is_dir(&env)).unwrap(), "Base test directory should be a directory");

    let config_dir = join(&test_dir, "config");
    assert!(!fs.flag(config_dir.try_exists(&env)).unwrap(), "Config directory should not exist yet");
    fs.unit(config_dir.create_dir_all(&env)).unwrap();
    assert!(
        fs.flag(config_dir.try_exists(&env)).unwrap(),
        "Config directory should exist after creation"
    );
    assert!(fs.flag(config_dir.is_dir(&env)).unwrap(), "Config directory should be a directory");

    let sub_config = join(&config_dir, "subdir");
    fs.unit(sub_config.create_dir_all(&env)).unwrap();
    assert!(fs.flag(sub_config.try_exists(&env)).unwrap(), "Subdirectory should exist");
    assert!(fs.flag(sub_config.is_dir(&env)).unwrap(), "Subdirectory should be a directory");

    fs.cleanup_test_dir(&test_dir);
}

#[test]
fn directory_operations_test_nested_directories() {
    let mut fs = MemFs::new();
    let env = env_with(Config::new());
    let test_dir = fs.setup_test_dir();

    let nested_dir = join(&join(&join(&test_dir, "deeply"), "nested"), "dir");
    fs.unit(nested_dir.create_dir_all(&env)).unwrap();
    assert!(fs.flag(nested_dir.try_exists(&env)).unwrap());

    let nested_file = join(&nested_dir, "test.txt");
    fs.unit(nested_file.create_file(&env)).unwrap();
    assert!(fs.flag(nested_file.try_exists(&env)).unwrap());

    fs.cleanup_test_dir(&test_dir);
}

#[test]
fn directory_operations_test_directory_removal() {
    let mut fs = MemFs::new();
    let env = env_with(Config::new());
    let test_dir = fs.setup_test_dir();

    let sub_dir = join(&test_dir, "subdir");
    fs.unit(sub_dir.create_dir_all(&env)).unwrap();
    fs.unit(join(&sub_dir, "file1.txt").create_file(&env)).unwrap();
    fs.unit(join(&sub_dir, "file2.txt").create_file(&env)).unwrap();

    fs.unit(test_dir.remove(&env)).unwrap();
    assert!(!fs.flag(test_dir.try_exists(&env)).unwrap());
}

#[test]
fn path_ext_tests_test_directory_removal() {
    let mut fs = MemFs::new();
    let env = env_with(Config::new());
    let test_dir = fs.setup_test_dir();

    let sub_dir = join(&test_dir, "subdir");
    fs.unit(sub_dir.create_dir_all(&env)).unwrap();
    fs.unit(join(&sub_dir, "file1.txt").create_file(&env)).unwrap();
    fs.unit(join(&sub_dir, "file2.txt").create_file(&env)).unwrap();

    fs.unit(test_dir.remove(&env)).unwrap();
    assert!(!fs.flag(test_dir.try_exists(&env)).unwrap());
}

#[test]
fn error_handling_test_error_handling() -> Result<(), SoftPathError> {
    let mut fs = MemFs::new();
    let env = env_with(Config::new());
    let test_dir = fs.setup_test_dir();

    let nonexistent = join(&test_dir, "nonexistent.txt");
    match fs.text(nonexistent.read_to_string(&env)) {
        Err(e) => println!("Expected error when reading nonexistent file: {:?}", e),
        Ok(_) => panic!("Reading nonexistent file should fail"),
    }

    let nested_file = join(&join(&test_dir, "new_dir"), "file.txt");
    fs.unit(nested_file.write_string("test", &env))?;
    assert!(
        fs.flag(nested_file.try_exists(&env)).unwrap(),
        "File should be created in new directory"
    );

    let nonexistent_dir = join(&test_dir, "does_not_exist");
    match fs.unit(nonexistent_dir.remove(&env)) {
        Err(e) => println!("Expected error when removing nonexistent path: {:?}", e),
        Ok(_) => panic!("Removing nonexistent path should fail"),
    }

    let invalid_path = join(&test_dir, "invalid\0file.txt");
    match fs.unit(invalid_path.create_file(&env)) {
        Err(e) => println!("Expected error for invalid path: {:?}", e),
        Ok(_) => panic!("Creating file with invalid path should fail"),
    }

    fs.cleanup_test_dir(&test_dir);
    Ok(())
}

#[test]
fn file_operations_test_file_operations() -> Result<(), SoftPathError> {
    let mut fs = MemFs::new();
    let env = env_with(Config::new());
    let test_dir = fs.setup_test_dir();
    assert!(fs.flag(test_dir.try_exists(&env))?, "Test directory should exist");

    let file_path = join(&test_dir, "test.txt");
    fs.unit(file_path.create_file(&env))?;
    assert!(fs.flag(file_path.try_exists(&env))?, "File should exist after creation");
    assert!(fs.flag(file_path.is_file(&env))?, "Should be a file");

    let content = "Hello, SoftPath!";
    fs.unit(file_path.write_string(content, &env))?;
    let read_content = fs.text(file_path.read_to_string(&env))?;
    assert_eq!(content, read_content, "File content should match");

    fs.cleanup_test_dir(&test_dir);
    Ok(())
}

#[test]
fn file_operations_test_copy_and_move() {
    let mut fs = MemFs::new();
    let env = env_with(Config::new());
    let test_dir = fs.setup_test_dir();

    let source = join(&test_dir, "source.txt");
    fs.unit(source.create_file(&env)).unwrap();
    fs.unit(source.write_string("test content", &env)).unwrap();
    assert!(fs.flag(source.try_exists(&env)).unwrap(), "Source file should exist");

    let copy_dest = join(&test_dir, "copied.txt");
    fs.unit(source.copy_to(&copy_dest, &env)).unwrap();
    assert!(fs.flag(copy_dest.try_exists(&env)).unwrap(), "Copied file should exist");
    assert!(fs.flag(source.try_exists(&env)).unwrap(), "Source file should still exist after copy");
    assert_eq!(
        fs.text(source.read_to_string(&env)).unwrap(),
        fs.text(copy_dest.read_to_string(&env)).unwrap(),
        "Content should be identical"
    );

    let move_dest = join(&test_dir, "moved.txt");
    fs.unit(source.move_to(&move_dest, &env)).unwrap();
    assert!(!fs.flag(source.try_exists(&env)).unwrap(), "Source file should not exist after move");
    assert!(fs.flag(move_dest.try_exists(&env)).unwrap(), "Moved file should exist");
    assert_eq!(
        "test content",
        fs.text(move_dest.read_to_string(&env)).unwrap(),
        "Content should be preserved after move"
    );

    fs.cleanup_test_dir(&test_dir);
}

#[test]
fn file_operations_test_is_empty() -> Result<(), SoftPathError> {
    let mut fs = MemFs::new();
    let env = env_with(Config::new());
    let test_dir = fs.setup_test_dir();

    let empty_dir = join(&test_dir, "empty_dir");
    fs.unit(empty_dir.create_dir_all(&env))?;
    assert!(fs.flag(empty_dir.is_empty(&env))?, "Newly created directory should be empty");

    let non_empty_dir = join(&test_dir, "non_empty_dir");
    fs.unit(non_empty_dir.create_dir_all(&env))?;
    fs.unit(join(&non_empty_dir, "file.txt").write_string("content", &env))?;
    assert!(!fs.flag(non_empty_dir.is_empty(&env))?, "Directory with file should not be empty");

    let empty_file = join(&test_dir, "empty.txt");
    fs.unit(empty_file.write_string("", &env))?;
    assert!(fs.flag(empty_file.is_empty(&env))?, "Empty file should be empty");

    let non_empty_file = join(&test_dir, "non_empty.txt");
    fs.unit(non_empty_file.write_string("content", &env))?;
    assert!(!fs.flag(non_empty_file.is_empty(&env))?, "File with content should not be empty");

    fs.cleanup_test_dir(&test_dir);
    Ok(())
}

#[test]
fn file_operations_test_hidden_files() -> Result<(), SoftPathError> {
    let mut fs = MemFs::new();
    let env = env_with(Config::new());
    let test_dir = fs.setup_test_dir();

    let hidden_file = join(&test_dir, ".hidden");
    fs.unit(hidden_file.write_string("content", &env))?;

    let visible_file = join(&test_dir, "visible");
    fs.unit(visible_file.write_string("content", &env))?;

    assert!(fs.flag(hidden_file.is_hidden(&env))?, "Dot-prefixed file should be hidden on Unix");
    assert!(
        !fs.flag(visible_file.is_hidden(&env))?,
        "Non-dot-prefixed file should not be hidden on Unix"
    );

    fs.cleanup_test_dir(&test_dir);
    Ok(())
}

#[test]
fn path_components_test_path_components() {
    let mut fs = MemFs::new();
    let env = env_with(Config::new());
    let test_dir = fs.setup_test_dir();

    let file_path = join(&join(&test_dir, "parent_dir"), "test.txt");

    assert_eq!(fs.name(file_path.file_name(&env)).unwrap(), Some("test.txt".to_string()));
    assert_eq!(fs.name(file_path.extension(&env)).unwrap(), Some("txt".to_string()));
    assert_eq!(fs.name(file_path.parent_name(&env)).unwrap(), Some("parent_dir".to_string()));

    let no_ext_path = join(&test_dir, "file_without_extension");
    assert_eq!(
        fs.name(no_ext_path.file_name(&env)).unwrap(),
        Some("file_without_extension".to_string())
    );
    assert_eq!(fs.name(no_ext_path.extension(&env)).unwrap(), None);

    fs.cleanup_test_dir(&test_dir);
}

#[test]
fn path_components_test_absolute_path() -> Result<(), SoftPathError> {
    let mut fs = MemFs::new();
    let env = env_with(Config::new());
    let test_dir = fs.setup_test_dir();

    let rel_path = join(&test_dir, "some_dir/../file.txt");
    fs.unit(rel_path.write_string("content", &env))?;

    let abs_path = fs.path(rel_path.absolute(&env))?;
    let base = fs.path(test_dir.absolute(&env))?;
    assert!(std::path::Path::new(&abs_path.text).starts_with(&base.text));
    assert!(std::path::Path::new(&abs_path.text).ends_with("file.txt"));
    assert!(!abs_path.text.contains(".."));

    fs.cleanup_test_dir(&test_dir);
    Ok(())
}

#[test]
fn path_ext_tests_test_absolute_path() -> Result<(), SoftPathError> {
    let mut fs = MemFs::new();
    let env = env_with(Config::new());
    let test_dir = fs.setup_test_dir();

    let rel_path = join(&test_dir, "some_dir/../file.txt");
    fs.unit(rel_path.write_string("content", &env))?;

    let abs_path = fs.path(rel_path.absolute(&env))?;
    let base = fs.path(test_dir.absolute(&env))?;
    assert!(std::path::Path::new(&abs_path.text).starts_with(&base.text));
    assert!(std::path::Path::new(&abs_path.text).ends_with("file.txt"));
    assert!(!abs_path.text.contains(".."));

    fs.cleanup_test_dir(&test_dir);
    Ok(())
}

#[test]
fn path_types_test_string_path_operations() -> Result<(), SoftPathError> {
    let mut fs = MemFs::new();
    let env = env_with(Config::new());
    let test_dir = fs.setup_test_dir();
    assert!(fs.flag(test_dir.try_exists(&env)).unwrap(), "Test directory should exist");

    let file_path = std::path::PathBuf::from(&test_dir.text)
        .join("test.txt")
        .to_str()
        .ok_or_else(|| SoftPathError::InvalidPath("Invalid UTF-8 in path".to_string()))?
        .to_string();

    let file_ref: &str = &file_path;
    fs.unit(file_ref.create_file(&env))?;
    assert!(fs.flag(file_ref.try_exists(&env))?, "File should exist");
    assert!(fs.flag(file_ref.is_file(&env))?, "Should be a file");

    fs.unit(file_ref.write_string("test content", &env))?;
    let content = fs.text(file_ref.read_to_string(&env))?;
    assert_eq!(content, "test content", "Content should match");

    fs.cleanup_test_dir(&test_dir);
    Ok(())
}

#[test]
fn path_types_test_path_reference_operations() {
    let mut fs = MemFs::new();
    let env = env_with(Config::new());
    let test_dir = fs.setup_test_dir();

    let path: &SoftPath = &test_dir;
    assert!(fs.flag(path.try_exists(&env)).unwrap());
    assert!(fs.flag(path.is_dir(&env)).unwrap());

    let file_path = join(path, "test.txt");
    let file_ref: &SoftPath = &file_path;
    fs.unit(file_ref.create_file(&env)).unwrap();
    assert!(fs.flag(file_ref.try_exists(&env)).unwrap());
    assert!(fs.flag(file_ref.is_file(&env)).unwrap());

    fs.unit(file_ref.write_string("test content", &env)).unwrap();
    assert_eq!(fs.text(file_ref.read_to_string(&env)).unwrap(), "test content");

    fs.cleanup_test_dir(&test_dir);
}

#[test]
fn platform_specific_test_unix_specific_paths() {
    let mut fs = MemFs::new();
    let env = env_with(Config::new());
    let test_dir = fs.setup_test_dir();

    let abs_path = join(&test_dir, "unix_test.txt");
    fs.unit(abs_path.create_file(&env)).unwrap();
    assert!(fs.flag(abs_path.try_exists(&env)).unwrap());

    fs.cleanup_test_dir(&test_dir);
}

#[test]
fn platform_specific_test_windows_specific_paths() {
    let mut fs = MemFs::new();
    let env = env_with(Config::new());
    let test_dir = fs.setup_test_dir();

    let file_path = join(&test_dir, "windows_test.txt");
    fs.unit(file_path.create_file(&env)).unwrap();
    assert!(fs.flag(file_path.try_exists(&env)).unwrap());

    let space_path = join(&test_dir, "with spaces.txt");
    fs.unit(space_path.create_file(&env)).unwrap();
    assert!(fs.flag(space_path.try_exists(&env)).unwrap());

    fs.cleanup_test_dir(&test_dir);
}

#[test]
fn test_path_traversal_errors() {
    let mut fs = MemFs::new();
    let env = env_with(Config::new());
    let malicious_paths = vec![
        "../../../../../../../../../etc/passwd",
        "../../../../../../../../../windows/system32",
        "./../../../../../../../../sensitive/file.txt",
        "normal/../../../../../../../../etc/passwd",
    ];

    for path_str in malicious_paths {
        match fs.flag(path_str.try_exists(&env)) {
            Err(SoftPathError::PathTraversal(_)) => {
                println!("✓ Correctly caught path traversal in exists(): {}", path_str);
            }
            Err(other_error) => {
                panic!("Expected PathTraversal error, got: {:?}", other_error);
            }
            Ok(_) => {
                panic!("Expected error for path traversal attempt: {}", path_str);
            }
        }

        match fs.flag(path_str.is_file(&env)) {
            Err(SoftPathError::PathTraversal(_)) => {
                println!("✓ Correctly caught path traversal in is_file(): {}", path_str);
            }
            Err(_) | Ok(_) => {
                panic!("Expected PathTraversal error for is_file(): {}", path_str);
            }
        }

        match fs.flag(path_str.is_dir(&env)) {
            Err(SoftPathError::PathTraversal(_)) => {
                println!("✓ Correctly caught path traversal in is_dir(): {}", path_str);
            }
            Err(_) | Ok(_) => {
                panic!("Expected PathTraversal error for is_dir(): {}", path_str);
            }
        }

        match fs.name(path_str.file_name(&env)) {
            Err(SoftPathError::PathTraversal(_)) => {
                println!("✓ Correctly caught path traversal in file_name(): {}", path_str);
            }
            Err(_) | Ok(_) => {
                panic!("Expected PathTraversal error for file_name(): {}", path_str);
            }
        }
    }
}

#[test]
fn test_path_depth_exceeded_errors() {
    let mut fs = MemFs::new();
    let env = env_with(Config::new());
    let mut deep_path = String::new();
    for i in 0..300 {
        deep_path.push_str(&format!("dir{}/", i));
    }
    deep_path.push_str("file.txt");

    match fs.flag(deep_path.as_str().try_exists(&env)) {
        Err(SoftPathError::PathDepthExceeded(depth)) => {
            println!("✓ Correctly caught path depth exceeded: {} components", depth);
        }
        Err(other_error) => {
            panic!("Expected PathDepthExceeded error, got: {:?}", other_error);
        }
        Ok(_) => {
            panic!("Expected error for overly deep path");
        }
    }
}

#[test]
fn test_invalid_path_errors() {
    let mut fs = MemFs::new();
    let env = env_with(Config::new());
    let invalid_paths = vec!["file\0name.txt", "dir\0/file.txt", "\0invalid"];

    for path_str in invalid_paths {
        match fs.path(path_str.into_path(&env)) {
            Err(SoftPathError::InvalidPath(_)) => {
                println!("✓ Correctly caught invalid path: {}", path_str.replace('\0', "\\0"));
            }
            Err(other_error) => {
                println!("Got different error (may be platform-specific): {:?}", other_error);
            }
            Ok(_) => {
                panic!("Expected error for invalid path: {}", path_str.replace('\0', "\\0"));
            }
        }
    }
}

#[test]
fn test_io_errors() {
    let mut fs = MemFs::new();
    let env = env_with(Config::new());
    let nonexistent = "/definitely/does/not/exist/file.txt";

    match fs.text(nonexistent.read_to_string(&env)) {
        Err(SoftPathError::Io(io_error)) => {
            println!("✓ Correctly caught IO error: {}", io_error.message);
            assert_eq!(io_error.kind, IoKind::NotFound);
        }
        Err(other_error) => {
            panic!("Expected IO error, got: {:?}", other_error);
        }
        Ok(_) => {
            panic!("Expected error when reading non-existent file");
        }
    }
}

#[test]
fn test_error_matching_patterns() {
    let mut fs = MemFs::new();
    let env = env_with(Config::new());
    let malicious_path = "../../../../../../../../../etc/passwd";

    match fs.flag(malicious_path.try_exists(&env)) {
        Err(SoftPathError::PathTraversal(path)) => {
            println!("Caught path traversal attempt: {}", path);
            assert!(path.contains("etc/passwd") || path.contains("<path>"));
        }
        Err(e) => panic!("Unexpected error type: {:?}", e),
        Ok(_) => panic!("Should have failed validation"),
    }

    if let Err(SoftPathError::PathTraversal(_)) = fs.flag(malicious_path.is_file(&env)) {
        println!("✓ Successfully detected path traversal with if let");
    } else {
        panic!("Expected PathTraversal error");
    }

    assert!(matches!(fs.flag(malicious_path.is_dir(&env)), Err(SoftPathError::PathTraversal(_))));

    let error = fs.name(malicious_path.file_name(&env)).unwrap_err();
    match error {
        SoftPathError::PathTraversal(_) => println!("✓ Got expected error type"),
        _ => panic!("Wrong error type: {:?}", error),
    }
}

#[test]
fn test_error_propagation() {
    let mut fs = MemFs::new();
    let env = env_with(Config::new());
    let mut test_function = || -> Result<bool, SoftPathError> {
        let malicious_path = "../../../../../../../../../etc/passwd";
        let found = fs.flag(malicious_path.try_exists(&env))?;
        Ok(found)
    };

    match test_function() {
        Err(SoftPathError::PathTraversal(_)) => {
            println!("✓ Error properly propagated through ? operator");
        }
        Err(e) => panic!("Unexpected error: {:?}", e),
        Ok(_) => panic!("Expected error to be propagated"),
    }
}

#[test]
fn test_valid_paths_return_ok() -> Result<(), SoftPathError> {
    let mut fs = MemFs::new();
    let env = env_with(Config::new());
    let test_dir = fs.setup_test_dir();

    let valid_paths = vec!["./valid_file.txt", "normal/path/file.txt", "simple.txt"];

    for path_str in valid_paths {
        let full_path = join(&test_dir, path_str);
        match fs.flag(full_path.try_exists(&env)) {
            Ok(exists) => {
                println!("✓ Valid path processed successfully: {} (exists: {})", path_str, exists);
            }
            Err(SoftPathError::PathTraversal(_)) => {
                panic!("Valid path incorrectly flagged as traversal: {}", path_str);
            }
            Err(SoftPathError::PathDepthExceeded(_)) => {
                panic!("Valid path incorrectly flagged as too deep: {}", path_str);
            }
            Err(other_error) => {
                println!("Got other error (may be expected): {:?}", other_error);
            }
        }
    }

    fs.cleanup_test_dir(&test_dir);
    Ok(())
}

#[test]
fn symlink_cycle_is_detected() {
    let mut fs = MemFs::new();
    let env = env_with(Config::new());
    let dir = fs.setup_test_dir();
    let a = join(&dir, "a");
    let b = join(&dir, "b");
    fs.symlink(&b.text, &a.text);
    fs.symlink(&a.text, &b.text);

    let outcome = fs.flag(a.try_exists(&env));
    assert_eq!(outcome, Err(SoftPathError::SymlinkCycleDetected(a.text.clone())));
    // a is probed and read, b is probed and read, a is probed again.
    assert_eq!(
        fs.log,
        vec![
            Action::IsSymlink(a.duplicate()),
            Action::ReadLink(a.duplicate()),
            Action::IsSymlink(b.duplicate()),
            Action::ReadLink(b.duplicate()),
            Action::IsSymlink(a.duplicate()),
        ]
    );
}

#[test]
fn long_symlink_chain_is_refused() {
    let mut fs = MemFs::new();
    let env = env_with(Config::new().with_max_symlink_depth(3));
    let dir = fs.setup_test_dir();
    // l0 -> l1 -> l2 -> l3 -> file: four links, one more than the limit.
    fs.write(&join(&dir, "file").text, "x").unwrap();
    for i in 0..4 {
        let target = if i == 3 { join(&dir, "file") } else { join(&dir, &format!("l{}", i + 1)) };
        fs.symlink(&target.text, &join(&dir, &format!("l{}", i)).text);
    }
    let outcome = fs.text(join(&dir, "l0").read_to_string(&env));
    assert_eq!(outcome, Err(SoftPathError::SymlinkDepthExceeded(3)));

    // Three links are within the limit.
    let outcome = fs.text(join(&dir, "l1").read_to_string(&env));
    assert_eq!(outcome, Ok("x".to_string()));
}

#[test]
fn broken_link_is_an_io_failure() {
    let mut fs = MemFs::new();
    let env = env_with(Config::new());
    let dir = fs.setup_test_dir();
    fs.symlink(&join(&dir, "gone").text, &join(&dir, "l").text);
    // The link itself is followed; its target is no link, so the check passes
    // and the read fails as the filesystem says.
    match fs.text(join(&dir, "l").read_to_string(&env)) {
        Err(SoftPathError::Io(failure)) => assert_eq!(failure.kind, IoKind::NotFound),
        other => panic!("expected an I/O failure, got {:?}", other),
    }
}

#[test]
fn create_file_does_not_clobber() {
    let mut fs = MemFs::new();
    let env = env_with(Config::new());
    let dir = fs.setup_test_dir();
    let file = join(&dir, "once.txt");
    fs.unit(file.create_file(&env)).unwrap();
    fs.unit(file.write_string("kept", &env)).unwrap();

    match fs.unit(file.create_file(&env)) {
        Err(SoftPathError::Io(failure)) => {
            assert_eq!(failure.kind, IoKind::AlreadyExists);
            assert_eq!(failure.message, format!("File already exists: {}", file.text));
        }
        other => panic!("expected AlreadyExists, got {:?}", other),
    }
    assert_eq!(fs.text(file.read_to_string(&env)).unwrap(), "kept");
}

#[test]
fn write_goes_through_a_temporary_sibling() {
    let mut fs = MemFs::new();
    let env = env_with(Config::new());
    let dir = fs.setup_test_dir();
    let file = join(&dir, "data.txt");
    fs.unit(file.write_string("old", &env)).unwrap();
    fs.log.clear();

    // Stop the driver after the temporary file is written: the target is
    // as it was.
    let mut op = file.write_string("new", &env);
    let mut event = Event::Start;
    loop {
        let action = op.step(event);
        let written = matches!(action, Action::WriteSynced(_, _));
        event = fs.perform(&action);
        fs.log.push(action);
        if written {
            break;
        }
    }
    assert_eq!(fs.read(&file.text).unwrap(), "old");
    assert_eq!(fs.read(&join(&dir, "data.tmp").text).unwrap(), "new");

    // Carry on: the rename makes the new content visible at once.
    let action = op.step(event);
    assert_eq!(action, Action::Rename(join(&dir, "data.tmp"), file.duplicate()));
    let event = fs.perform(&action);
    assert_eq!(op.step(event), Action::Finish(Ok(Value::Unit)));
    assert_eq!(fs.read(&file.text).unwrap(), "new");
    assert!(!fs.nodes.contains_key(&join(&dir, "data.tmp").text));
}

#[test]
fn write_creates_missing_parents() {
    let mut fs = MemFs::new();
    let env = env_with(Config::new());
    let dir = fs.setup_test_dir();
    let file = join(&dir, "a/b/c.txt");
    assert!(!fs.is_dir(&join(&dir, "a").text));
    fs.unit(file.write_string("hello", &env)).unwrap();
    assert!(fs.is_dir(&join(&dir, "a").text));
    assert!(fs.is_dir(&join(&dir, "a/b").text));
    assert_eq!(fs.text(file.read_to_string(&env)).unwrap(), "hello");
}

#[test]
fn copy_then_move() {
    let mut fs = MemFs::new();
    let env = env_with(Config::new());
    let dir = fs.setup_test_dir();
    let src = join(&dir, "src.txt");
    let dst = join(&dir, "dst.txt");
    let last = join(&dir, "final.txt");
    fs.unit(src.write_string("x", &env)).unwrap();
    fs.unit(src.copy_to(&dst, &env)).unwrap();
    assert_eq!(fs.text(src.read_to_string(&env)).unwrap(), "x");
    assert_eq!(fs.text(dst.read_to_string(&env)).unwrap(), "x");
    fs.unit(dst.move_to(&last, &env)).unwrap();
    assert!(!fs.flag(dst.try_exists(&env)).unwrap());
    assert_eq!(fs.text(last.read_to_string(&env)).unwrap(), "x");
}

#[test]
fn is_empty_follows_the_content() {
    let mut fs = MemFs::new();
    let env = env_with(Config::new());
    let dir = fs.setup_test_dir();
    let file = join(&dir, "f");
    fs.unit(file.create_file(&env)).unwrap();
    assert!(fs.flag(file.is_empty(&env)).unwrap());
    fs.unit(file.write_string("x", &env)).unwrap();
    assert!(!fs.flag(file.is_empty(&env)).unwrap());

    let sub = join(&dir, "d");
    fs.unit(sub.create_dir_all(&env)).unwrap();
    assert!(fs.flag(sub.is_empty(&env)).unwrap());
    fs.unit(join(&sub, "entry").create_file(&env)).unwrap();
    assert!(!fs.flag(sub.is_empty(&env)).unwrap());

    // Neither a file nor a directory: not empty, and no error.
    assert!(!fs.flag(join(&dir, "missing").is_empty(&env)).unwrap());
}

#[test]
fn hidden_by_attribute_bit() {
    let mut fs = MemFs::new();
    let mut env = env_with(Config::new());
    env.hidden = HiddenRule::AttributeBit;
    let dir = fs.setup_test_dir();
    let plain = join(&dir, ".dotted");
    let system = join(&dir, "pagefile.sys");
    fs.unit(plain.create_file(&env)).unwrap();
    fs.unit(system.create_file(&env)).unwrap();
    assert!(!fs.flag(plain.is_hidden(&env)).unwrap());
    assert!(fs.flag(system.is_hidden(&env)).unwrap());
    match fs.flag(join(&dir, "missing").is_hidden(&env)) {
        Err(SoftPathError::Io(failure)) => assert_eq!(failure.kind, IoKind::NotFound),
        other => panic!("expected an I/O failure, got {:?}", other),
    }
}

#[test]
fn parent_is_validated_for_itself() {
    let mut fs = MemFs::new();
    let env = env_with(Config::new());
    let dir = fs.setup_test_dir();
    // The parent is a link into a cycle; the file's own name is no link.
    let a = join(&dir, "a");
    let b = join(&dir, "b");
    fs.symlink(&b.text, &a.text);
    fs.symlink(&a.text, &b.text);
    let file = join(&a, "file.txt");
    let outcome = fs.unit(file.create_file(&env));
    assert_eq!(outcome, Err(SoftPathError::SymlinkCycleDetected(a.text.clone())));
    assert!(fs.log.iter().all(|action| matches!(action, Action::IsSymlink(_) | Action::ReadLink(_))));
}

#[test]
fn relative_path_needs_the_working_directory() {
    let mut fs = MemFs::new();
    let mut env = env_with(Config::new());
    env.cwd = Err(failure(IoKind::NotFound, "the working directory is gone"));
    match fs.flag("relative.txt".try_exists(&env)) {
        Err(SoftPathError::Io(failure)) => assert_eq!(failure.kind, IoKind::NotFound),
        other => panic!("expected an I/O failure, got {:?}", other),
    }
    // An absolute path does not ask for it.
    assert_eq!(fs.flag("/tmp".try_exists(&env)), Ok(true));
}

#[test]
fn name_only_detail_hides_directories() {
    let mut fs = MemFs::new();
    let mut env = env_with(Config::new());
    env.detail = ErrorDetail::NameOnly;
    let outcome = fs.flag("../../../etc/passwd".try_exists(&env));
    assert_eq!(outcome, Err(SoftPathError::PathTraversal("<path>/passwd".to_string())));
    let outcome = fs.flag("../../..".try_exists(&env));
    assert_eq!(outcome, Err(SoftPathError::PathTraversal("<path>".to_string())));

    env.detail = ErrorDetail::Full;
    let outcome = fs.flag("../../../etc/passwd".try_exists(&env));
    assert_eq!(outcome, Err(SoftPathError::PathTraversal("/work/../../../etc/passwd".to_string())));
}

#[test]
fn unexpected_answers_end_the_operation() {
    let env = env_with(Config::new());
    let mut op = SoftPath::new("/tmp/x").try_exists(&env);
    assert_eq!(op.step(Event::Start), Action::IsSymlink(SoftPath::new("/tmp/x")));
    match op.step(Event::Done) {
        Action::Finish(Err(SoftPathError::Io(failure))) => {
            assert_eq!(failure.kind, IoKind::InvalidInput)
        }
        other => panic!("expected a protocol failure, got {:?}", other),
    }
    // A finished operation stays finished.
    assert!(matches!(op.step(Event::Start), Action::Finish(Err(_))));
}

#[test]
fn into_path_takes_a_path_as_it_is() {
    let mut fs = MemFs::new();
    let env = env_with(Config::new());
    let odd = SoftPath::new("../../../../../../../etc");
    assert_eq!(fs.path(odd.duplicate().into_path(&env)), Ok(odd));
    assert!(fs.log.is_empty());
    // Text is validated.
    assert!(matches!(
        fs.path("../../../../../../../etc".into_path(&env)),
        Err(SoftPathError::PathTraversal(_))
    ));
    assert_eq!(fs.path("plain/file".into_path(&env)), Ok(SoftPath::new("plain/file")));
}

#[test]
fn null_byte_is_an_invalid_path() {
    let mut fs = MemFs::new();
    let env = env_with(Config::new());
    for text in ["file\0name.txt", "dir\0/file.txt", "\0invalid", "~/a\0b"] {
        assert_eq!(
            fs.path(text.into_path(&env)),
            Err(SoftPathError::InvalidPath("Path contains null bytes".to_string()))
        );
    }
    assert!(fs.log.is_empty());
}

#[test]
fn valid_paths_reach_the_filesystem() {
    let mut fs = MemFs::new();
    let env = env_with(Config::new());
    let test_dir = fs.setup_test_dir();
    for path_str in ["./valid_file.txt", "normal/path/file.txt", "simple.txt"] {
        assert_eq!(fs.flag(join(&test_dir, path_str).try_exists(&env)), Ok(false));
    }
    assert_eq!(fs.flag(join(&test_dir, "a/b/../c").try_exists(&env)), Ok(false));
}

#[test]
fn two_link_cycle_needs_two_steps() {
    let mut fs = MemFs::new();
    let dir = fs.setup_test_dir();
    let a = join(&dir, "a");
    let b = join(&dir, "b");
    fs.symlink(&b.text, &a.text);
    fs.symlink(&a.text, &b.text);

    // With a limit of two the walk comes back to `a` and sees the cycle.
    let env = env_with(Config::new().with_max_symlink_depth(2));
    assert_eq!(
        fs.flag(a.try_exists(&env)),
        Err(SoftPathError::SymlinkCycleDetected(a.text.clone()))
    );
    // With a limit of one it is stopped at `b`, before it is back.
    let env = env_with(Config::new().with_max_symlink_depth(1));
    assert_eq!(fs.flag(a.try_exists(&env)), Err(SoftPathError::SymlinkDepthExceeded(1)));
    // With a limit of zero no link is followed at all.
    let env = env_with(Config::new().with_max_symlink_depth(0));
    assert_eq!(fs.flag(a.try_exists(&env)), Err(SoftPathError::SymlinkDepthExceeded(0)));
}

#[test]
fn a_tmp_target_is_its_own_sibling() {
    let mut fs = MemFs::new();
    let env = env_with(Config::new());
    let dir = fs.setup_test_dir();
    let file = join(&dir, "spool.tmp");
    fs.unit(file.write_string("text", &env)).unwrap();
    assert!(fs.log.contains(&Action::WriteSynced(file.duplicate(), "text".to_string())));
    assert!(fs.log.contains(&Action::Rename(file.duplicate(), file.duplicate())));
    assert_eq!(fs.read(&file.text).unwrap(), "text");
}

#[test]
fn every_run_stays_within_its_budget() {
    let mut fs = MemFs::new();
    let env = env_with(Config::new().with_max_symlink_depth(5));
    let dir = fs.setup_test_dir();
    // A chain of five links: as long as the limit allows.
    fs.write(&join(&dir, "l5").text, "end").unwrap();
    for i in 0..5 {
        fs.symlink(&join(&dir, &format!("l{}", i + 1)).text, &join(&dir, &format!("l{}", i)).text);
    }
    let file = join(&dir, "l0");
    fs.log.clear();
    assert_eq!(fs.text(file.read_to_string(&env)).unwrap(), "end");
    // One check of 2 * 5 + 1 questions, and the read.
    assert_eq!(fs.log.len(), 12);
    assert!(fs.log.len() <= 3 * (2 * 5 + 3) + 5);
}

#[test]
fn path_ext_tests_test_path_creation() {
    let mut fs = MemFs::new();
    let env = env_with(Config::new());
    let test_dir = fs.setup_test_dir();
    assert!(fs.flag(test_dir.try_exists(&env)).unwrap(), "Base test directory should exist");
    assert!(fs.flag(test_dir.is_dir(&env)).unwrap(), "Base test directory should be a directory");

    let config_dir = join(&test_dir, "config");
    assert!(!fs.flag(config_dir.try_exists(&env)).unwrap(), "Config directory should not exist yet");
    fs.unit(config_dir.create_dir_all(&env)).unwrap();
    assert!(
        fs.flag(config_dir.try_exists(&env)).unwrap(),
        "Config directory should exist after creation"
    );
    assert!(fs.flag(config_dir.is_dir(&env)).unwrap(), "Config directory should be a directory");

    let sub_config = join(&config_dir, "subdir");
    fs.unit(sub_config.create_dir_all(&env)).unwrap();
    assert!(fs.flag(sub_config.try_exists(&env)).unwrap(), "Subdirectory should exist");
    assert!(fs.flag(sub_config.is_dir(&env)).unwrap(), "Subdirectory should be a directory");

    fs.cleanup_test_dir(&test_dir);
}

#[test]
fn path_ext_tests_test_file_operations() -> Result<(), SoftPathError> {
    let mut fs = MemFs::new();
    let env = env_with(Config::new());
    let test_dir = fs.setup_test_dir();
    assert!(fs.flag(test_dir.try_exists(&env))?, "Test directory should exist");

    let file_path = join(&test_dir, "test.txt");
    fs.unit(file_path.create_file(&env))?;
    assert!(fs.flag(file_path.try_exists(&env))?, "File should exist after creation");
    assert!(fs.flag(file_path.is_file(&env))?, "Should be a file");

    let content = "Hello, SoftPath!";
    fs.unit(file_path.write_string(content, &env))?;
    let read_content = fs.text(file_path.read_to_string(&env))?;
    assert_eq!(content, read_content, "File content should match");

    fs.cleanup_test_dir(&test_dir);
    Ok(())
}

#[test]
fn path_ext_tests_test_copy_and_move() {
    let mut fs = MemFs::new();
    let env = env_with(Config::new());
    let test_dir = fs.setup_test_dir();

    let source = join(&test_dir, "source.txt");
    fs.unit(source.create_file(&env)).unwrap();
    fs.unit(source.write_string("test content", &env)).unwrap();
    assert!(fs.flag(source.try_exists(&env)).unwrap(), "Source file should exist");

    let copy_dest = join(&test_dir, "copied.txt");
    fs.unit(source.copy_to(&copy_dest, &env)).unwrap();
    assert!(fs.flag(copy_dest.try_exists(&env)).unwrap(), "Copied file should exist");
    assert!(fs.flag(source.try_exists(&env)).unwrap(), "Source file should still exist after copy");
    assert_eq!(
        fs.text(source.read_to_string(&env)).unwrap(),
        fs.text(copy_dest.read_to_string(&env)).unwrap(),
        "Content should be identical"
    );

    let move_dest = join(&test_dir, "moved.txt");
    fs.unit(source.move_to(&move_dest, &env)).unwrap();
    assert!(!fs.flag(source.try_exists(&env)).unwrap(), "Source file should not exist after move");
    assert!(fs.flag(move_dest.try_exists(&env)).unwrap(), "Moved file should exist");
    assert_eq!(
        "test content",
        fs.text(move_dest.read_to_string(&env)).unwrap(),
        "Content should be preserved after move"
    );

    fs.cleanup_test_dir(&test_dir);
}

#[test]
fn path_ext_tests_test_nested_directories() {
    let mut fs = MemFs::new();
    let env = env_with(Config::new());
    let test_dir = fs.setup_test_dir();

    let nested_dir = join(&join(&join(&test_dir, "deeply"), "nested"), "dir");
    fs.unit(nested_dir.create_dir_all(&env)).unwrap();
    assert!(fs.flag(nested_dir.try_exists(&env)).unwrap());

    let nested_file = join(&nested_dir, "test.txt");
    fs.unit(nested_file.create_file(&env)).unwrap();
    assert!(fs.flag(nested_file.try_exists(&env)).unwrap());

    fs.cleanup_test_dir(&test_dir);
}

#[test]
fn path_ext_tests_test_string_path_operations() -> Result<(), SoftPathError> {
    let mut fs = MemFs::new();
    let env = env_with(Config::new());
    let test_dir = fs.setup_test_dir();
    assert!(fs.flag(test_dir.try_exists(&env)).unwrap(), "Test directory should exist");

    let file_path = std::path::PathBuf::from(&test_dir.text)
        .join("test.txt")
        .to_str()
        .ok_or_else(|| SoftPathError::InvalidPath("Invalid UTF-8 in path".to_string()))?
        .to_string();

    let file_ref: &str = &file_path;
    fs.unit(file_ref.create_file(&env))?;
    assert!(fs.flag(file_ref.try_exists(&env))?, "File should exist");
    assert!(fs.flag(file_ref.is_file(&env))?, "Should be a file");

    fs.unit(file_ref.write_string("test content", &env))?;
    let content = fs.text(file_ref.read_to_string(&env))?;
    assert_eq!(content, "test content", "Content should match");

    fs.cleanup_test_dir(&test_dir);
    Ok(())
}

#[test]
fn path_ext_tests_test_path_reference_operations() {
    let mut fs = MemFs::new();
    let env = env_with(Config::new());
    let test_dir = fs.setup_test_dir();

    let path: &SoftPath = &test_dir;
    assert!(fs.flag(path.try_exists(&env)).unwrap());
    assert!(fs.flag(path.is_dir(&env)).unwrap());

    let file_path = join(path, "test.txt");
    let file_ref: &SoftPath = &file_path;
    fs.unit(file_ref.create_file(&env)).unwrap();
    assert!(fs.flag(file_ref.try_exists(&env)).unwrap());
    assert!(fs.flag(file_ref.is_file(&env)).unwrap());

    fs.unit(file_ref.write_string("test content", &env)).unwrap();
    assert_eq!(fs.text(file_ref.read_to_string(&env)).unwrap(), "test content");

    fs.cleanup_test_dir(&test_dir);
}

#[test]
fn path_ext_tests_test_error_handling() -> Result<(), SoftPathError> {
    let mut fs = MemFs::new();
    let env = env_with(Config::new());
    let test_dir = fs.setup_test_dir();

    let nonexistent = join(&test_dir, "nonexistent.txt");
    match fs.text(nonexistent.read_to_string(&env)) {
        Err(e) => println!("Expected error when reading nonexistent file: {:?}", e),
        Ok(_) => panic!("Reading nonexistent file should fail"),
    }

    let nested_file = join(&join(&test_dir, "new_dir"), "file.txt");
    fs.unit(nested_file.write_string("test", &env))?;
    assert!(
        fs.flag(nested_file.try_exists(&env)).unwrap(),
        "File should be created in new directory"
    );

    let nonexistent_dir = join(&test_dir, "does_not_exist");
    match fs.unit(nonexistent_dir.remove(&env)) {
        Err(e) => println!("Expected error when removing nonexistent path: {:?}", e),
        Ok(_) => panic!("Removing nonexistent path should fail"),
    }

    let invalid_path = join(&test_dir, "invalid\0file.txt");
    match fs.unit(invalid_path.create_file(&env)) {
        Err(e) => println!("Expected error for invalid path: {:?}", e),
        Ok(_) => panic!("Creating file with invalid path should fail"),
    }

    fs.cleanup_test_dir(&test_dir);
    Ok(())
}

#[test]
fn path_ext_tests_test_unix_specific_paths() {
    let mut fs = MemFs::new();
    let env = env_with(Config::new());
    let test_dir = fs.setup_test_dir();

    let abs_path = join(&test_dir, "unix_test.txt");
    fs.unit(abs_path.create_file(&env)).unwrap();
    assert!(fs.flag(abs_path.try_exists(&env)).unwrap());

    fs.cleanup_test_dir(&test_dir);
}

#[test]
fn path_ext_tests_test_windows_specific_paths() {
    let mut fs = MemFs::new();
    let env = env_with(Config::new());
    let test_dir = fs.setup_test_dir();

    let file_path = join(&test_dir, "windows_test.txt");
    fs.unit(file_path.create_file(&env)).unwrap();
    assert!(fs.flag(file_path.try_exists(&env)).unwrap());

    let space_path = join(&test_dir, "with spaces.txt");
    fs.unit(space_path.create_file(&env)).unwrap();
    assert!(fs.flag(space_path.try_exists(&env)).unwrap());

    fs.cleanup_test_dir(&test_dir);
}

#[test]
fn path_ext_tests_test_is_empty() -> Result<(), SoftPathError> {
    let mut fs = MemFs::new();
    let env = env_with(Config::new());
    let test_dir = fs.setup_test_dir();

    let empty_dir = join(&test_dir, "empty_dir");
    fs.unit(empty_dir.create_dir_all(&env))?;
    assert!(fs.flag(empty_dir.is_empty(&env))?, "Newly created directory should be empty");

    let non_empty_dir = join(&test_dir, "non_empty_dir");
    fs.unit(non_empty_dir.create_dir_all(&env))?;
    fs.unit(join(&non_empty_dir, "file.txt").write_string("content", &env))?;
    assert!(!fs.flag(non_empty_dir.is_empty(&env))?, "Directory with file should not be empty");

    let empty_file = join(&test_dir, "empty.txt");
    fs.unit(empty_file.write_string("", &env))?;
    assert!(fs.flag(empty_file.is_empty(&env))?, "Empty file should be empty");

    let non_empty_file = join(&test_dir, "non_empty.txt");
    fs.unit(non_empty_file.write_string("content", &env))?;
    assert!(!fs.flag(non_empty_file.is_empty(&env))?, "File with content should not be empty");

    fs.cleanup_test_dir(&test_dir);
    Ok(())
}

#[test]
fn path_ext_tests_test_hidden_files() -> Result<(), SoftPathError> {
    let mut fs = MemFs::new();
    let env = env_with(Config::new());
    let test_dir = fs.setup_test_dir();

    let hidden_file = join(&test_dir, ".hidden");
    fs.unit(hidden_file.write_string("content", &env))?;

    let visible_file = join(&test_dir, "visible");
    fs.unit(visible_file.write_string("content", &env))?;

    assert!(fs.flag(hidden_file.is_hidden(&env))?, "Dot-prefixed file should be hidden on Unix");
    assert!(
        !fs.flag(visible_file.is_hidden(&env))?,
        "Non-dot-prefixed file should not be hidden on Unix"
    );

    fs.cleanup_test_dir(&test_dir);
    Ok(())
}

#[test]
fn path_ext_tests_test_path_components() {
    let mut fs = MemFs::new();
    let env = env_with(Config::new());
    let test_dir = fs.setup_test_dir();

    let file_path = join(&join(&test_dir, "parent_dir"), "test.txt");

    assert_eq!(fs.name(file_path.file_name(&env)).unwrap(), Some("test.txt".to_string()));
    assert_eq!(fs.name(file_path.extension(&env)).unwrap(), Some("txt".to_string()));
    assert_eq!(fs.name(file_path.parent_name(&env)).unwrap(), Some("parent_dir".to_string()));

    let no_ext_path = join(&test_dir, "file_without_extension");
    assert_eq!(
        fs.name(no_ext_path.file_name(&env)).unwrap(),
        Some("file_without_extension".to_string())
    );
    assert_eq!(fs.name(no_ext_path.extension(&env)).unwrap(), None);

    fs.cleanup_test_dir(&test_dir);
}

/// Two operations, each driven one step at a time, in turn.
fn interleave(fs: &mut MemFs, first: Operation, second: Operation) -> (Outcome, Outcome) {
    let mut ops = [first, second];
    let mut events = [Some(Event::Start), Some(Event::Start)];
    let mut outcomes: [Option<Outcome>; 2] = [None, None];
    while outcomes.iter().any(|o| o.is_none()) {
        for turn in 0..2 {
            if let Some(event) = events[turn].take() {
                match ops[turn].step(event) {
                    Action::Finish(outcome) => outcomes[turn] = Some(outcome),
                    action => events[turn] = Some(fs.perform(&action)),
                }
            }
        }
    }
    let [first, second] = outcomes;
    (first.unwrap(), second.unwrap())
}

#[test]
fn concurrent_operations_test_concurrent_operations() {
    let mut fs = MemFs::new();
    let env = env_with(Config::new());
    let test_dir = fs.setup_test_dir();

    let thread_file = join(&test_dir, "thread.txt");
    let main_file = join(&test_dir, "main.txt");

    let (thread, main) = interleave(&mut fs, thread_file.create_file(&env), main_file.create_file(&env));
    thread.unwrap();
    main.unwrap();
    let (thread, main) = interleave(
        &mut fs,
        thread_file.write_string("thread content", &env),
        main_file.write_string("main content", &env),
    );
    thread.unwrap();
    main.unwrap();
    let (thread, main) =
        interleave(&mut fs, thread_file.try_exists(&env), main_file.try_exists(&env));
    assert!(thread == Ok(Value::Flag(true)));
    assert!(main == Ok(Value::Flag(true)));

    fs.cleanup_test_dir(&test_dir);
}

#[test]
fn path_ext_tests_test_concurrent_operations() {
    let mut fs = MemFs::new();
    let env = env_with(Config::new());
    let test_dir = fs.setup_test_dir();

    let thread_file = join(&test_dir, "thread.txt");
    let main_file = join(&test_dir, "main.txt");

    let (main, thread) =
        interleave(&mut fs, main_file.create_file(&env), thread_file.create_file(&env));
    thread.unwrap();
    main.unwrap();
    let (main, thread) = interleave(
        &mut fs,
        main_file.write_string("main content", &env),
        thread_file.write_string("thread content", &env),
    );
    thread.unwrap();
    main.unwrap();
    let (main, thread) =
        interleave(&mut fs, main_file.try_exists(&env), thread_file.try_exists(&env));
    assert!(thread == Ok(Value::Flag(true)));
    assert!(main == Ok(Value::Flag(true)));

    fs.cleanup_test_dir(&test_dir);
}

#[test]
fn rejected_paths_do_not_reach_the_filesystem() {
    let mut fs = MemFs::new();
    let env = env_with(Config::new());
    for text in ["../../../../../../../../../etc/passwd", "normal/../../../../../../../../etc/passwd"] {
        assert!(matches!(fs.flag(text.try_exists(&env)), Err(SoftPathError::PathTraversal(_))));
        assert!(matches!(fs.unit(text.create_file(&env)), Err(SoftPathError::PathTraversal(_))));
        assert!(matches!(fs.unit(text.remove(&env)), Err(SoftPathError::PathTraversal(_))));
    }
    assert!(fs.log.is_empty(), "a rejected path must not reach the filesystem");
}

#[test]
fn removal_takes_the_whole_tree() {
    let mut fs = MemFs::new();
    let env = env_with(Config::new());
    let test_dir = fs.setup_test_dir();
    let sub_dir = join(&test_dir, "subdir");
    fs.unit(sub_dir.create_dir_all(&env)).unwrap();
    fs.unit(join(&sub_dir, "file1.txt").create_file(&env)).unwrap();
    fs.unit(test_dir.remove(&env)).unwrap();
    assert!(!fs.nodes.keys().any(|k| k.starts_with(&test_dir.text)));
    // A file goes by the call for files.
    let file = SoftPath::new("/tmp/lonely");
    fs.unit(file.create_file(&env)).unwrap();
    fs.log.clear();
    fs.unit(file.remove(&env)).unwrap();
    assert_eq!(fs.log.last(), Some(&Action::RemoveFile(file.duplicate())));
}

#[test]
fn absolute_resolves_dots_away() {
    let mut fs = MemFs::new();
    let env = env_with(Config::new());
    let test_dir = fs.setup_test_dir();
    let rel_path = join(&test_dir, "some_dir/../file.txt");
    fs.unit(rel_path.write_string("content", &env)).unwrap();
    let abs_path = fs.path(rel_path.absolute(&env)).unwrap();
    assert_eq!(abs_path.text, format!("{}/file.txt", test_dir.text));
}

#[test]
fn interleaved_writes_keep_their_own_text() {
    let mut fs = MemFs::new();
    let env = env_with(Config::new());
    let dir = fs.setup_test_dir();
    let one = join(&dir, "one.txt");
    let two = join(&dir, "two.txt");
    let (first, second) =
        interleave(&mut fs, one.write_string("first", &env), two.write_string("second", &env));
    assert_eq!(first, Ok(Value::Unit));
    assert_eq!(second, Ok(Value::Unit));
    assert_eq!(fs.read(&one.text).unwrap(), "first");
    assert_eq!(fs.read(&two.text).unwrap(), "second");
}

#[test]
fn a_link_to_its_own_path_is_a_cycle_however_written() {
    let mut fs = MemFs::new();
    let dir = fs.setup_test_dir();
    let a = join(&dir, "a");
    let doubled = SoftPath::new(&format!("{}//a", dir.text));
    fs.symlink(&doubled.text, &a.text);

    // The revisit is seen before the limit is tested: one step is enough.
    let env = env_with(Config::new().with_max_symlink_depth(1));
    assert_eq!(
        fs.flag(a.try_exists(&env)),
        Err(SoftPathError::SymlinkCycleDetected(doubled.text.clone()))
    );
    assert_eq!(
        fs.log,
        vec![
            Action::IsSymlink(a.duplicate()),
            Action::ReadLink(a.duplicate()),
            Action::IsSymlink(doubled.duplicate()),
        ]
    );
    // With no step allowed the link is refused for its depth.
    let env = env_with(Config::new().with_max_symlink_depth(0));
    assert_eq!(fs.flag(a.try_exists(&env)), Err(SoftPathError::SymlinkDepthExceeded(0)));
}

#[test]
fn a_cycle_is_closed_by_the_same_path_in_another_writing() {
    let mut fs = MemFs::new();
    let env = env_with(Config::new());
    let dir = fs.setup_test_dir();
    let a = join(&dir, "a");
    let b = join(&dir, "b");
    // A trailing separator is left out: with it the filesystem follows the
    // link itself, and reports no link at that text.
    for back in ["//a", "/./a", "///a"] {
        let again = SoftPath::new(&format!("{}{}", dir.text, back));
        fs.symlink(&b.text, &a.text);
        fs.symlink(&again.text, &b.text);
        fs.log.clear();
        let outcome = fs.flag(a.try_exists(&env));
        assert_eq!(outcome, Err(SoftPathError::SymlinkCycleDetected(again.text.clone())));
        // Two links are read, and no third.
        assert_eq!(
            fs.log,
            vec![
                Action::IsSymlink(a.duplicate()),
                Action::ReadLink(a.duplicate()),
                Action::IsSymlink(b.duplicate()),
                Action::ReadLink(b.duplicate()),
                Action::IsSymlink(again.duplicate()),
            ]
        );
    }
}

#[test]
fn operations_take_backslashes_where_the_rule_says_so() {
    let mut fs = MemFs::new();
    let mut env = env_with(Config::new());
    env.separators = Separators::SlashAndBackslash;
    let dir = fs.setup_test_dir();
    let file = SoftPath::new(&format!("{}\\sub\\note.txt", dir.text));
    fs.unit(file.write_string("text", &env)).unwrap();
    assert_eq!(fs.read(&format!("{}/sub/note.txt", dir.text)).unwrap(), "text");
    assert_eq!(fs.name(file.file_name(&env)).unwrap(), Some("note.txt".to_string()));
    assert_eq!(fs.name(file.parent_name(&env)).unwrap(), Some("sub".to_string()));
    let copy = SoftPath::new(&format!("{}\\copy.txt", dir.text));
    fs.unit(file.copy_to(&copy, &env)).unwrap();
    assert_eq!(fs.read(&format!("{}/copy.txt", dir.text)).unwrap(), "text");
    assert!(matches!(
        fs.unit("..\\..\\..\\x".create_file(&env)),
        Err(SoftPathError::PathTraversal(_))
    ));
}
