use git_config::load::{load, Error, FileSet, FileState, IoErrorKind, LoadStop, Options, ParserOrIoError};
use git_config::store::GitConfig;

const DIR: &str = "/tmp/cfg";
const HOME: &str = "/home/user";

fn path(name: &str) -> String {
    format!("{}/{}", DIR, name)
}

/// Loads as from a file system that holds `files` and nothing else.
fn from_paths(seeds: Vec<String>, files: &[(String, String)], options: &Options) -> Result<GitConfig, Error> {
    let seeds: Vec<Vec<u8>> = seeds.into_iter().map(|s| s.into_bytes()).collect();
    let mut absent: Vec<Vec<u8>> = Vec::new();
    loop {
        let mut set = FileSet::new();
        for (p, contents) in files {
            set.insert(p.as_bytes().to_vec(), FileState::Contents(contents.as_bytes().to_vec()));
        }
        for p in &absent {
            set.insert(p.clone(), FileState::NotFound);
        }
        match load(&seeds, &set, options) {
            Ok(c) => return Ok(c),
            Err(LoadStop::Failed(e)) => return Err(e),
            Err(LoadStop::NeedsFile(p)) => absent.push(p),
        }
    }
}

fn file(name: &str, contents: &str) -> (String, String) {
    (path(name), contents.to_string())
}

fn home_options() -> Options {
    Options { home_dir: Some(HOME.as_bytes().to_vec()), ..Default::default() }
}

#[test]
fn file_not_found() {
    let error = from_paths(vec![path("config")], &[], &Default::default()).unwrap_err();
    assert!(matches!(error, Error::ParserOrIoError(ParserOrIoError::Io(kind)) if kind == IoErrorKind::NotFound));
}

#[test]
fn single_path() {
    let files = vec![file("config", "[core]\nboolean = true")];
    let config = from_paths(vec![path("config")], &files, &Default::default()).unwrap();
    assert_eq!(config.raw_value("core", None, "boolean").unwrap(), b"true".to_vec());
    assert_eq!(config.len(), 1);
}

#[test]
fn multiple_paths_single_value() {
    let files = vec![
        file("a", "[core]\na = true"),
        file("b", "[core]\nb = true"),
        file("c", "[core]\nc = true"),
        file("d", "[core]\na = false"),
    ];
    let config = from_paths(vec![path("a"), path("b"), path("c"), path("d")], &files, &Default::default()).unwrap();
    assert_eq!(config.boolean("core", None, "a"), Some(Ok(false)));
    assert_eq!(config.boolean("core", None, "b"), Some(Ok(true)));
    assert_eq!(config.boolean("core", None, "c"), Some(Ok(true)));
    assert_eq!(config.len(), 4);
}

#[test]
fn multiple_paths_multi_value() {
    let files = vec![
        file("a", "[core]\nkey = a"),
        file("b", "[core]\nkey = b"),
        file("c", "[core]\nkey = c"),
        file("d", "[include]\npath = d_path"),
        file("e", "[include]\npath = e_path"),
    ];
    let seeds = vec![path("a"), path("b"), path("c"), path("d"), path("e")];
    let config = from_paths(seeds, &files, &Default::default()).unwrap();
    assert_eq!(
        config.strings("core", None, "key"),
        Some(vec!["a".to_string(), "b".to_string(), "c".to_string()])
    );
    assert_eq!(config.strings("include", None, "path"), None);
    assert_eq!(config.len(), 3);
}

#[test]
fn multiple() {
    let c = format!(
        "
        [core]
          c = 12
          d = 42
        [include]
          path = {}
          path = {}
          path = {}
        [include.ignore]
          path = {}
        [http]
          sslVerify = false",
        "/dfgwfsghfdsfs",
        format!("{}/./a", DIR),
        "b",
        path("ignore")
    );
    let files = vec![
        file(
            "a",
            "
        [core]
          a = false
          sslVerify = true
          d = 41",
        ),
        file(
            "b",
            "
        [diff]
          renames = true",
        ),
        file(
            "ignore",
            "
        [diff]
          renames = invalid",
        ),
        (format!("{}/./a", DIR), "\n        [core]\n          a = false\n          sslVerify = true\n          d = 41".to_string()),
        file("c", &c),
    ];
    let config = from_paths(vec![path("c")], &files, &Default::default()).unwrap();
    assert_eq!(config.raw_value("core", None, "c").unwrap(), b"12".to_vec());
    assert_eq!(config.raw_value("core", None, "d").unwrap(), b"41".to_vec());
    assert_eq!(config.raw_value("http", None, "sslVerify").unwrap(), b"false".to_vec());
    assert_eq!(config.raw_value("diff", None, "renames").unwrap(), b"true".to_vec());
    assert_eq!(config.raw_value("core", None, "a").unwrap(), b"false".to_vec());
}

fn chain() -> Vec<(String, String)> {
    let max_depth = 4u8;
    let mut files = Vec::new();
    for (i, next_i) in (0..max_depth).zip(1..=max_depth) {
        files.push(file(
            &i.to_string(),
            &format!(
                "
                [core]
                  i = {i} 
                [include]
                  path = {}",
                path(&next_i.to_string()),
            ),
        ));
    }
    files.push(file(
        &max_depth.to_string(),
        &"
                [core]
                  i = {}"
            .replace("{}", &max_depth.to_string()),
    ));
    files
}

#[test]
fn respect_max_depth() {
    let files = chain();
    let seed = || vec![path("0")];

    let config = from_paths(seed(), &files, &Options::default()).unwrap();
    assert_eq!(
        config.raw_multi_value("core", None, "i").unwrap(),
        vec![b"0".to_vec(), b"1".to_vec(), b"2".to_vec(), b"3".to_vec(), b"4".to_vec()]
    );

    let options = Options { max_depth: 1, error_on_max_depth_exceeded: false, ..Default::default() };
    let config = from_paths(seed(), &files, &options).unwrap();
    assert_eq!(config.raw_value("core", None, "i").unwrap(), b"1".to_vec());

    let config = from_paths(seed(), &files, &Options::default()).unwrap();
    assert_eq!(config.raw_value("core", None, "i").unwrap(), b"4".to_vec());

    let options = Options { max_depth: 5, ..Default::default() };
    let config = from_paths(seed(), &files, &options).unwrap();
    assert_eq!(config.raw_value("core", None, "i").unwrap(), b"4".to_vec());

    let options = Options { max_depth: 2, ..Default::default() };
    let config = from_paths(seed(), &files, &options);
    assert!(matches!(config.unwrap_err(), Error::IncludeDepthExceeded { max_depth: 2 }));

    let options = Options { max_depth: 2, error_on_max_depth_exceeded: false, ..Default::default() };
    let config = from_paths(seed(), &files, &options).unwrap();
    assert_eq!(config.raw_value("core", None, "i").unwrap(), b"2".to_vec());

    let options = Options { max_depth: 0, ..Default::default() };
    let config = from_paths(seed(), &files, &options);
    assert!(matches!(config.unwrap_err(), Error::IncludeDepthExceeded { max_depth: 0 }));
}

#[test]
fn simple() {
    let a = format!(
        "
        [core]
          b = true
        [include]
          path = {}
        [core]
          b = true
        [include]
          path = {}",
        path("b"),
        path("b")
    );
    let files = vec![
        file("a", &a),
        file(
            "b",
            "
        [core]
          b = false",
        ),
    ];
    let config = from_paths(vec![path("a")], &files, &Default::default()).unwrap();
    assert_eq!(config.raw_value("core", None, "b").unwrap(), b"false".to_vec());
}

#[test]
fn cycle_detection() {
    let files = vec![
        file(
            "a",
            &format!(
                "
        [core]
          b = 0
        [include]
          path = {}",
                path("b")
            ),
        ),
        file(
            "b",
            &format!(
                "
        [core]
          b = 1
        [include]
          path = {}",
                path("a")
            ),
        ),
    ];
    let options = Options { max_depth: 4, ..Default::default() };
    let config = from_paths(vec![path("a")], &files, &options);
    assert!(matches!(config.unwrap_err(), Error::IncludeDepthExceeded { max_depth: 4 }));

    let options = Options { max_depth: 4, error_on_max_depth_exceeded: false, ..Default::default() };
    let config = from_paths(vec![path("a")], &files, &options).unwrap();
    assert_eq!(
        config.raw_multi_value("core", None, "b").unwrap(),
        vec![b"0".to_vec(), b"1".to_vec(), b"0".to_vec(), b"1".to_vec(), b"0".to_vec()]
    );
}

#[test]
fn nested() {
    let files = vec![
        file(
            "a",
            "
        [core]
          a = false
          c = 1",
        ),
        file(
            "b",
            &format!(
                "
        [core]
          b = true
        [include]
          path = {}",
                path("a")
            ),
        ),
        file(
            "c",
            &format!(
                "
        [core]
          c = 12
        [include]
          path = {}",
                path("b")
            ),
        ),
    ];
    let config = from_paths(vec![path("c")], &files, &Default::default()).unwrap();
    assert_eq!(config.raw_value("core", None, "c").unwrap(), b"1".to_vec());
    assert_eq!(config.raw_value("core", None, "b").unwrap(), b"true".to_vec());
    assert_eq!(config.raw_value("core", None, "a").unwrap(), b"false".to_vec());
}

fn conditional_files() -> Vec<(String, String)> {
    let a = format!(
        r#"
        [core]
          x = 1
          a = 1
          b = 1
          c = 1
          i = 1
        [includeIf "onbranch:/br/"]
          path = {}
        [includeIf "gitdir/i:a/B/c/D/"]
          path = {}
        [includeIf "gitdir:c\\d"]
          path = {}
        [includeIf "gitdir:./p/"]
          path = {}
        [includeIf "gitdir:z/y/"]
          path = {}
        [includeIf "gitdir:w/.git"]
          path = {}
        [includeIf "gitdir:~/.git"]
          path = {}
        [includeIf "gitdir:~/c/"]
          path = {}
        [includeIf "gitdir:a/.git"]
          path = {}
        [includeIf "gitdir:/e/x/"]
          path = {}"#,
        path("branch"),
        path("i"),
        path("x"),
        path("g"),
        path("e"),
        path("w"),
        path("c"),
        path("c_slash"),
        path("d"),
        path("b")
    );
    vec![
        file("a", &a),
        file("branch", "\n        [core]\n          x = 7"),
        file("i", "\n        [core]\n          i = 3"),
        file("x", "\n        [core]\n          c = 5"),
        file("b", "\n        [core]\n          b = 2"),
        file("c", "\n        [core]\n          b = 3"),
        file("d", "\n        [core]\n          b = 4"),
        file("e", "\n        [core]\n          a = 5"),
        file("w", "\n        [core]\n          a = 6"),
        file("c_slash", "\n        [core]\n          b = 7"),
        file("g", "\n        [core]\n          b = 8"),
    ]
}

fn with_git_dir(dir: &str) -> Options {
    Options { git_dir: Some(dir.as_bytes().to_vec()), ..home_options() }
}

#[test]
fn girdir_and_onbranch() {
    let files = conditional_files();
    let seed = || vec![path("a")];

    let options = Options { branch_name: Some(b"refs/heads/repo/br/one".to_vec()), ..home_options() };
    let config = from_paths(seed(), &files, &options).unwrap();
    assert_eq!(config.raw_value("core", None, "x").unwrap(), b"7".to_vec(), "branch name match");

    let config = from_paths(seed(), &files, &with_git_dir("/a/b/c/d/.git")).unwrap();
    assert_eq!(config.raw_value("core", None, "i").unwrap(), b"3".to_vec(), "case insensitive patterns match");

    let config = from_paths(seed(), &files, &with_git_dir("/a/c/d/.git")).unwrap();
    assert_eq!(
        config.raw_value("core", None, "c").unwrap(),
        b"1".to_vec(),
        "patterns with backslashes do not match"
    );

    let config = from_paths(seed(), &files, &with_git_dir(&format!("{}/p/q/.git", DIR))).unwrap();
    assert_eq!(
        config.raw_value("core", None, "b").unwrap(),
        b"8".to_vec(),
        "relative path pattern is matched correctly"
    );

    let config = from_paths(seed(), &files, &with_git_dir(&format!("{}/a/z/y/b/.git", DIR))).unwrap();
    assert_eq!(
        config.raw_value("core", None, "a").unwrap(),
        b"5".to_vec(),
        "the pattern is prefixed and suffixed with ** to match GIT_DIR containing it in the middle"
    );

    let config = from_paths(seed(), &files, &with_git_dir("C:\\w\\.git")).unwrap();
    assert_eq!(
        config.raw_value("core", None, "a").unwrap(),
        b"6".to_vec(),
        "backslashes in GIT_DIR are converted to forward slashes"
    );

    let config = from_paths(seed(), &files, &with_git_dir(&format!("{}/.git", HOME))).unwrap();
    assert_eq!(
        config.raw_multi_value("core", None, "b").unwrap(),
        vec![b"1".to_vec(), b"3".to_vec()],
        "tilde ~ path is resolved to home directory"
    );

    let config = from_paths(seed(), &files, &with_git_dir(&format!("{}/c/d/.git", HOME))).unwrap();
    assert_eq!(config.raw_value("core", None, "b").unwrap(), b"7".to_vec(), "path with trailing slash is matched");

    let config = from_paths(seed(), &files, &with_git_dir(&format!("{}/x/a/.git", DIR))).unwrap();
    assert_eq!(
        config.raw_value("core", None, "b").unwrap(),
        b"4".to_vec(),
        "** is prepended so paths ending with the pattern are matched"
    );

    let config = from_paths(seed(), &files, &with_git_dir("/e/x/y/.git")).unwrap();
    assert_eq!(
        config.raw_value("core", None, "b").unwrap(),
        b"2".to_vec(),
        "absolute path pattern is matched with sub path from GIT_DIR"
    );
}
