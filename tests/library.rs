use git_config::load::{load, Error, FileSet, FileState, IoErrorKind, LoadStop, Options, ParserOrIoError};
use git_config::parse::ParseError;
use git_config::progress::Usage;
use git_config::protocol::agent;
use git_config::refname::{Error as RefError, NameError, TagNameError, ValidPartialName};
use git_config::transport::{invoke_lines, Message};
use git_config::store::{BooleanError, GitConfig, LookupError};

fn set(files: &[(&str, &[u8])], absent: &[&str]) -> FileSet {
    let mut set = FileSet::new();
    for (p, c) in files {
        set.insert(p.as_bytes().to_vec(), FileState::Contents(c.to_vec()));
    }
    for p in absent {
        set.insert(p.as_bytes().to_vec(), FileState::NotFound);
    }
    set
}

fn load_one(contents: &[u8]) -> Result<GitConfig, LoadStop> {
    load(&vec![b"/r/config".to_vec()], &set(&[("/r/config", contents)], &[]), &Options::default())
}

fn failure(r: Result<GitConfig, LoadStop>) -> Error {
    match r {
        Err(LoadStop::Failed(e)) => e,
        Err(LoadStop::NeedsFile(p)) => panic!("needs {:?}", p),
        Ok(_) => panic!("loaded"),
    }
}

#[test]
fn unterminated_header_is_a_parse_error_at_its_end() {
    let e = failure(load_one(b"[core\n"));
    assert_eq!(e, Error::ParserOrIoError(ParserOrIoError::Parser(ParseError { position: 5 })));
}

#[test]
fn entry_before_any_section_is_a_parse_error() {
    let e = failure(load_one(b"a = 1\n"));
    assert_eq!(e, Error::ParserOrIoError(ParserOrIoError::Parser(ParseError { position: 0 })));
}

#[test]
fn unterminated_quote_is_a_parse_error() {
    let e = failure(load_one(b"[core]\na = \"x"));
    assert_eq!(e, Error::ParserOrIoError(ParserOrIoError::Parser(ParseError { position: 13 })));
}

#[test]
fn values_lose_quotes_comments_and_outer_blanks() {
    let c = load_one(b"[core]\n  a = \" x \" # note\n  b = y\\\n z ; note\n  c = 1\\t2\\\\\n").unwrap();
    assert_eq!(c.raw_value("core", None, "a").unwrap(), b" x ".to_vec());
    assert_eq!(c.raw_value("core", None, "b").unwrap(), b"y z".to_vec());
    assert_eq!(c.raw_value("core", None, "c").unwrap(), b"1\t2\\".to_vec());
    assert_eq!(c.len(), 3);
}

#[test]
fn names_ignore_case_but_subsections_do_not() {
    let c = load_one(b"[Core]\nKey = v\n[remote \"Origin\"]\nurl = x\n[branch.Main]\nmerge = m\n").unwrap();
    assert_eq!(c.raw_value("Core", None, "Key"), c.raw_value("core", None, "key"));
    assert_eq!(c.raw_value("core", None, "key").unwrap(), b"v".to_vec());
    assert_eq!(c.raw_value("remote", Some("Origin"), "URL").unwrap(), b"x".to_vec());
    assert_eq!(c.raw_value("remote", Some("origin"), "url"), Err(LookupError::NotFound));
    assert_eq!(c.raw_value("branch", Some("Main"), "merge").unwrap(), b"m".to_vec());
}

#[test]
fn last_value_is_last_of_all_values() {
    let c = load_one(b"[core]\nk = 1\nk = 2\nother = 0\nk = 3\n").unwrap();
    let all = c.raw_multi_value("core", None, "k").unwrap();
    assert_eq!(all, vec![b"1".to_vec(), b"2".to_vec(), b"3".to_vec()]);
    assert_eq!(c.raw_value("core", None, "k").unwrap(), *all.last().unwrap());
    assert_eq!(c.raw_multi_value("core", None, "none"), Err(LookupError::NotFound));
}

#[test]
fn booleans_follow_git_words() {
    let c = load_one(b"[core]\nt1 = YES\nt2 = On\nt3 = 1\nt4\nf1 = Off\nf2 = no\nf3 = 0\nf4 = FALSE\nbad = maybe\n").unwrap();
    for k in ["t1", "t2", "t3", "t4"] {
        assert_eq!(c.boolean("core", None, k), Some(Ok(true)), "{}", k);
    }
    for k in ["f1", "f2", "f3", "f4"] {
        assert_eq!(c.boolean("core", None, k), Some(Ok(false)), "{}", k);
    }
    assert_eq!(c.boolean("core", None, "bad"), Some(Err(BooleanError { value: b"maybe".to_vec() })));
    assert_eq!(c.boolean("core", None, "absent"), None);
}

#[test]
fn strings_replace_invalid_utf8() {
    let c = load_one(b"[core]\nk = a\xffb\nk = ok\n").unwrap();
    assert_eq!(c.strings("core", None, "k"), Some(vec!["a\u{FFFD}b".to_string(), "ok".to_string()]));
    assert_eq!(c.strings("core", None, "none"), None);
}

#[test]
fn unreadable_files_fail_the_load() {
    let mut files = FileSet::new();
    files.insert(b"/r/a".to_vec(), FileState::Unreadable);
    let r = load(&vec![b"/r/a".to_vec()], &files, &Options::default());
    assert_eq!(failure(r), Error::ParserOrIoError(ParserOrIoError::Io(IoErrorKind::Unreadable)));

    let mut files = set(&[("/r/b", b"[include]\npath = a\n")], &[]);
    files.insert(b"/r/a".to_vec(), FileState::Unreadable);
    let r = load(&vec![b"/r/b".to_vec()], &files, &Options::default());
    assert_eq!(failure(r), Error::ParserOrIoError(ParserOrIoError::Io(IoErrorKind::Unreadable)));
}

#[test]
fn parse_error_in_an_include_aborts() {
    let files = set(&[("/r/b", b"[core]\nx = 1\n[include]\npath = a\n"), ("/r/a", b"[oops\n")], &[]);
    let r = load(&vec![b"/r/b".to_vec()], &files, &Options::default());
    assert_eq!(failure(r), Error::ParserOrIoError(ParserOrIoError::Parser(ParseError { position: 5 })));
}

#[test]
fn unknown_files_are_asked_for() {
    let r = load(&vec![b"/r/seed".to_vec()], &FileSet::new(), &Options::default());
    assert!(matches!(r, Err(LoadStop::NeedsFile(p)) if p == b"/r/seed".to_vec()));

    let files = set(&[("/r/seed", b"[include]\npath = sub/x\n")], &[]);
    let r = load(&vec![b"/r/seed".to_vec()], &files, &Options::default());
    assert!(matches!(r, Err(LoadStop::NeedsFile(p)) if p == b"/r/sub/x".to_vec()));
}

#[test]
fn missing_include_adds_only_its_own_line() {
    let with_line = set(&[("/r/c", b"[core]\na = 1\n[include]\npath = /nowhere\n[core]\nb = 2\n")], &["/nowhere"]);
    let without = set(&[("/r/c", b"[core]\na = 1\n[include]\n[core]\nb = 2\n")], &[]);
    let seeds = vec![b"/r/c".to_vec()];
    let a = load(&seeds, &with_line, &Options::default()).unwrap();
    let b = load(&seeds, &without, &Options::default()).unwrap();
    assert_eq!(a.len(), b.len());
    assert_eq!(a.len(), 2);
    assert_eq!(a.raw_multi_value("core", None, "a"), b.raw_multi_value("core", None, "a"));
    assert_eq!(a.raw_multi_value("core", None, "b"), b.raw_multi_value("core", None, "b"));
}

#[test]
fn missing_second_seed_fails() {
    let files = set(&[("/r/a", b"[core]\na = 1\n")], &["/r/b"]);
    let r = load(&vec![b"/r/a".to_vec(), b"/r/b".to_vec()], &files, &Options::default());
    assert_eq!(failure(r), Error::ParserOrIoError(ParserOrIoError::Io(IoErrorKind::NotFound)));
}

#[test]
fn tilde_without_home_is_skipped() {
    let files = set(&[("/r/a", b"[include]\npath = ~/x\n[includeIf \"gitdir:~/\"]\npath = /r/y\n")], &[]);
    let options = Options { git_dir: Some(b"/home/u/.git".to_vec()), ..Default::default() };
    let c = load(&vec![b"/r/a".to_vec()], &files, &options).unwrap();
    assert_eq!(c.len(), 0);
}

#[test]
fn onbranch_needs_a_local_branch() {
    let files = set(&[("/r/a", b"[includeIf \"onbranch:main\"]\npath = b\n"), ("/r/b", b"[core]\nx = 1\n")], &[]);
    let seeds = vec![b"/r/a".to_vec()];
    let local = Options { branch_name: Some(b"refs/heads/main".to_vec()), ..Default::default() };
    let c = load(&seeds, &files, &local).unwrap();
    assert_eq!(c.raw_value("core", None, "x").unwrap(), b"1".to_vec());
    let tag = Options { branch_name: Some(b"refs/tags/main".to_vec()), ..Default::default() };
    let c = load(&seeds, &files, &tag).unwrap();
    assert_eq!(c.raw_value("core", None, "x"), Err(LookupError::NotFound));
    let invalid = Options { branch_name: Some(b"refs/heads//main".to_vec()), ..Default::default() };
    let c = load(&seeds, &files, &invalid).unwrap();
    assert_eq!(c.raw_value("core", None, "x"), Err(LookupError::NotFound));
}

#[test]
fn unknown_condition_never_holds() {
    let files = set(&[("/r/a", b"[includeIf \"hasconfig:x\"]\npath = b\n"), ("/r/b", b"[core]\nx = 1\n")], &[]);
    let c = load(&vec![b"/r/a".to_vec()], &files, &Options::default()).unwrap();
    assert_eq!(c.len(), 0);
}

#[test]
fn star_does_not_cross_slashes() {
    let files = set(&[("/r/a", b"[includeIf \"gitdir:/w/*/.git\"]\npath = b\n"), ("/r/b", b"[core]\nx = 1\n")], &[]);
    let seeds = vec![b"/r/a".to_vec()];
    let near = Options { git_dir: Some(b"/w/p/.git".to_vec()), ..Default::default() };
    assert_eq!(load(&seeds, &files, &near).unwrap().len(), 1);
    let far = Options { git_dir: Some(b"/w/p/q/.git".to_vec()), ..Default::default() };
    assert_eq!(load(&seeds, &files, &far).unwrap().len(), 0);
    let inner = set(&[("/r/a", b"[includeIf \"gitdir:/w/a**b/.git\"]\npath = b\n"), ("/r/b", b"[core]\nx = 1\n")], &[]);
    let across = Options { git_dir: Some(b"/w/ax/yb/.git".to_vec()), ..Default::default() };
    assert_eq!(load(&seeds, &inner, &across).unwrap().len(), 0);
    let within = Options { git_dir: Some(b"/w/axyb/.git".to_vec()), ..Default::default() };
    assert_eq!(load(&seeds, &inner, &within).unwrap().len(), 1);
}

#[test]
fn default_options() {
    let o = Options::default();
    assert_eq!(o.max_depth, 10);
    assert!(o.error_on_max_depth_exceeded);
    assert!(o.git_dir.is_none() && o.branch_name.is_none() && o.home_dir.is_none());
}

#[test]
fn agent_adds_prefix_once() {
    assert_eq!(agent("gitoxide".to_string()), "git/gitoxide");
    assert_eq!(agent("git/gitoxide".to_string()), "git/gitoxide");
    assert_eq!(agent("gi".to_string()), "git/gi");
}

#[test]
fn usage_icons() {
    assert_eq!(Usage::NotApplicable.icon(), "❌");
    assert_eq!(Usage::Planned { note: None }.icon(), "🕒");
    assert_eq!(Usage::InModule { name: "m", deviation: Some("d") }.icon(), "👌️");
    assert_eq!(Usage::InModule { name: "m", deviation: None }.icon(), "✅");
}

#[test]
fn partial_names_are_validated() {
    let name = ValidPartialName::try_from("heads/main").ok().unwrap();
    assert_eq!(name.to_path(), b"heads/main".to_vec());
    let reason = |name: &[u8]| match ValidPartialName::try_from_bytes(name) {
        Err(RefError::RefnameValidation { err, path }) => {
            assert_eq!(path, name.to_vec());
            err
        }
        Ok(_) => panic!("accepted"),
    };
    assert_eq!(reason(b""), NameError::Tag(TagNameError::Empty));
    assert_eq!(reason(b"a//b"), NameError::RepeatedSlash);
    assert_eq!(reason(b"/a"), NameError::StartsWithSlash);
    assert_eq!(reason(b"a/./b"), NameError::SingleDot);
    assert_eq!(reason(b"a..b"), NameError::Tag(TagNameError::DoubleDot));
    assert_eq!(reason(b"a b"), NameError::Tag(TagNameError::InvalidByte { byte: b" ".to_vec() }));
    assert_eq!(reason(b"x.lock"), NameError::Tag(TagNameError::LockFileSuffix));
    assert_eq!(reason(b"a@{b"), NameError::Tag(TagNameError::ReflogPortion));
    assert_eq!(reason(b"a*"), NameError::Tag(TagNameError::Asterisk));
    assert_eq!(reason(b".a"), NameError::Tag(TagNameError::StartsWithDot));
    assert_eq!(reason(b"a/"), NameError::Tag(TagNameError::EndsWithSlash));
    assert!(ValidPartialName::try_from_bytes(b"heads/\xff").is_ok());
    assert!(matches!(ValidPartialName::try_from(&"main".to_string()), Ok(_)));
}

#[test]
fn v2_request_lines() {
    let caps = vec![("agent".to_string(), Some("git/x".to_string())), ("object-format".to_string(), None)];
    let m = invoke_lines("ls-refs", &caps, &Some(vec![b"peel".to_vec(), b"symrefs".to_vec()]));
    assert_eq!(
        m,
        vec![
            Message::Line(b"command=ls-refs".to_vec()),
            Message::Line(b"agent=git/x".to_vec()),
            Message::Line(b"object-format".to_vec()),
            Message::Delimiter,
            Message::Line(b"peel".to_vec()),
            Message::Line(b"symrefs".to_vec()),
        ]
    );
    let m = invoke_lines("fetch", &Vec::new(), &None);
    assert_eq!(m, vec![Message::Line(b"command=fetch".to_vec())]);
}

use git_config::credentials::{
    invoke_outcome_to_helper_result, Action, Context, Error as HelperError, InvokeOutcome, NextAction,
};

fn context() -> Context {
    Context {
        protocol: Some("https".into()),
        host: Some("example.com".into()),
        path: None,
        username: None,
        password: None,
        url: None,
    }
}

fn answer(username: Option<&str>, password: Option<&str>) -> InvokeOutcome {
    InvokeOutcome {
        username: username.map(|s| s.to_string()),
        password: password.map(|s| s.to_string()),
        next: NextAction { previous_output: b"out".to_vec() },
    }
}

#[test]
fn get_with_identity_succeeds() {
    let r = invoke_outcome_to_helper_result(Some(answer(Some("u"), Some("p"))), Action::Get(context()));
    let outcome = r.unwrap().unwrap();
    assert_eq!(outcome.identity.username, "u");
    assert_eq!(outcome.identity.password, "p");
    assert_eq!(outcome.next.previous_output, b"out".to_vec());
}

#[test]
fn get_without_identity_fails() {
    let r = invoke_outcome_to_helper_result(None, Action::Get(context()));
    assert!(matches!(r, Err(HelperError::IdentityMissing { context }) if context.host.as_deref() == Some("example.com")));
    let r = invoke_outcome_to_helper_result(Some(answer(Some("u"), None)), Action::Get(context()));
    assert!(matches!(r, Err(HelperError::IdentityMissing { .. })));
}

#[test]
fn store_and_erase_yield_nothing() {
    assert!(matches!(invoke_outcome_to_helper_result(None, Action::Store(b"x".to_vec())), Ok(None)));
    assert!(matches!(
        invoke_outcome_to_helper_result(Some(answer(Some("u"), Some("p"))), Action::Erase(b"x".to_vec())),
        Ok(None)
    ));
}

#[test]
fn consume_identity_takes_both_or_nothing() {
    let mut half = answer(None, Some("p"));
    assert!(half.consume_identity().is_none());
    assert_eq!(half.password.as_deref(), Some("p"));
    let mut full = answer(Some("u"), Some("p"));
    let id = full.consume_identity().unwrap();
    assert_eq!((id.username.as_str(), id.password.as_str()), ("u", "p"));
    assert!(full.username.is_none() && full.password.is_none());
}

#[test]
fn entries_record_their_file_and_depth() {
    let files = set(
        &[("/r/a", b"[core]\nb = 0\n[include]\npath = b\n"), ("/r/b", b"[core]\nb = 1\n[include]\npath = a\n")],
        &[],
    );
    let options = Options { max_depth: 4, error_on_max_depth_exceeded: false, ..Default::default() };
    let c = load(&vec![b"/r/a".to_vec()], &files, &options).unwrap();
    let entries = c.entries();
    assert_eq!(entries.len(), 5);
    for e in entries {
        assert!(e.depth <= options.max_depth);
    }
    let depths: Vec<u8> = entries.iter().filter(|e| e.key == b"b".to_vec()).map(|e| e.depth).collect();
    assert_eq!(depths, vec![0, 1, 2, 3, 4]);
    let paths: Vec<&[u8]> = entries.iter().filter(|e| e.key == b"b".to_vec()).map(|e| e.path.as_slice()).collect();
    assert_eq!(paths, vec![&b"/r/a"[..], b"/r/b", b"/r/a", b"/r/b", b"/r/a"]);
    assert!(entries.iter().all(|e| e.section != b"include".to_vec()));
}
