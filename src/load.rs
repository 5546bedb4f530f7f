//! Loading a configuration from seed files, following `[include]` and
//! `[includeIf "..."]` sections up to a depth limit.
use vstd::prelude::*;
use crate::bytes::{bytes_equal, copy_bytes, lower, lower_bytes};
use crate::parse::{entry_views, opt_view, parse_config, parse_spec, EntryView, ParseError, ParsedEntry};
use crate::paths::{condition_holds, condition_matches, resolve_include, resolve_include_path};
use crate::store::{stored_views, GitConfig, StoredEntry, StoredView};

verus! {

/// What is known of one file.
#[derive(Debug)]
pub enum FileState {
    Contents(Vec<u8>),
    NotFound,
    Unreadable,
}

pub enum FileView {
    Contents(Seq<u8>),
    NotFound,
    Unreadable,
}

impl View for FileState {
    type V = FileView;

    open spec fn view(&self) -> FileView {
        match self {
            FileState::Contents(c) => FileView::Contents(c@),
            FileState::NotFound => FileView::NotFound,
            FileState::Unreadable => FileView::Unreadable,
        }
    }
}

pub struct SourceFile {
    pub path: Vec<u8>,
    pub state: FileState,
}

/// The files a load may read, each by its path; a later record of a path
/// replaces an earlier one.
pub struct FileSet {
    files: Vec<SourceFile>,
}

impl View for FileSet {
    type V = Seq<(Seq<u8>, FileView)>;

    closed spec fn view(&self) -> Seq<(Seq<u8>, FileView)> {
        self.files@.map_values(|f: SourceFile| (f.path@, f.state@))
    }
}

/// What the set says of `path`; nothing if it holds no record of it.
pub open spec fn lookup(files: Seq<(Seq<u8>, FileView)>, path: Seq<u8>) -> Option<FileView>
    decreases files.len(),
{
    if files.len() == 0 {
        None
    } else if files.last().0 == path {
        Some(files.last().1)
    } else {
        lookup(files.drop_last(), path)
    }
}

impl FileSet {
    pub fn new() -> (r: FileSet)
        ensures
            r@ == Seq::<(Seq<u8>, FileView)>::empty(),
    {
        let r = FileSet { files: Vec::new() };
        assert(r@ =~= Seq::<(Seq<u8>, FileView)>::empty());
        r
    }

    /// Records what is known of the file at `path`.
    pub fn insert(&mut self, path: Vec<u8>, state: FileState)
        ensures
            final(self)@ == old(self)@.push((path@, state@)),
    {
        let ghost before = self@;
        self.files.push(SourceFile { path, state });
        assert(self@ =~= before.push((path@, state@)));
    }

    /// The position of the record that `lookup` finds.
    fn find(&self, path: &[u8]) -> (r: Option<usize>)
        ensures
            match r {
                None => lookup(self@, path@) is None,
                Some(i) => i < self.files.len() && lookup(self@, path@) == Some(self.files@[i as int].state@),
            },
    {
        let mut j = self.files.len();
        assert(self@.subrange(0, j as int) =~= self@);
        while j > 0
            invariant
                j <= self.files.len(),
                lookup(self@, path@) == lookup(self@.subrange(0, j as int), path@),
            decreases j,
        {
            assert(self@.subrange(0, j as int).drop_last() =~= self@.subrange(0, j - 1));
            assert(self@.subrange(0, j as int).last() == (self.files@[j - 1].path@, self.files@[j - 1].state@));
            if bytes_equal(self.files[j - 1].path.as_slice(), path) {
                return Some(j - 1);
            }
            j = j - 1;
        }
        None
    }
}

#[derive(PartialEq, Eq, Structural, Clone, Copy, Debug)]
pub enum IoErrorKind {
    NotFound,
    Unreadable,
}

#[derive(PartialEq, Eq, Structural, Clone, Copy, Debug)]
pub enum ParserOrIoError {
    Io(IoErrorKind),
    Parser(ParseError),
}

/// Why a load failed.
#[derive(PartialEq, Eq, Structural, Clone, Copy, Debug)]
pub enum Error {
    ParserOrIoError(ParserOrIoError),
    IncludeDepthExceeded { max_depth: u8 },
}

/// Why a load stopped: it failed, or it needs to know of a file that the set
/// holds no record of.
#[derive(Debug)]
pub enum LoadStop {
    Failed(Error),
    NeedsFile(Vec<u8>),
}

pub enum StopView {
    Failed(Error),
    NeedsFile(Seq<u8>),
}

impl View for LoadStop {
    type V = StopView;

    open spec fn view(&self) -> StopView {
        match self {
            LoadStop::Failed(e) => StopView::Failed(*e),
            LoadStop::NeedsFile(p) => StopView::NeedsFile(p@),
        }
    }
}

/// How a load is run.
pub struct Options {
    /// The most include edges allowed between a seed and a file it reaches.
    pub max_depth: u8,
    /// Fail when an include would go deeper than `max_depth`; otherwise the
    /// include is skipped.
    pub error_on_max_depth_exceeded: bool,
    /// The repository directory that `gitdir:` conditions match.
    pub git_dir: Option<Vec<u8>>,
    /// The full name of the current branch, for `onbranch:` conditions.
    pub branch_name: Option<Vec<u8>>,
    /// The directory that `~` stands for.
    pub home_dir: Option<Vec<u8>>,
}

impl Default for Options {
    fn default() -> (r: Options)
        ensures
            r.max_depth == 10,
            r.error_on_max_depth_exceeded,
            r.git_dir is None,
            r.branch_name is None,
            r.home_dir is None,
    {
        Options {
            max_depth: 10,
            error_on_max_depth_exceeded: true,
            git_dir: None,
            branch_name: None,
            home_dir: None,
        }
    }
}

pub type Outcome = Result<Seq<StoredView>, StopView>;

/// `path`
pub open spec fn path_word() -> Seq<u8> {
    seq![112u8, 97u8, 116u8, 104u8]
}

/// `include`
pub open spec fn include_word() -> Seq<u8> {
    seq![105u8, 110u8, 99u8, 108u8, 117u8, 100u8, 101u8]
}

/// `includeif`
pub open spec fn include_if_word() -> Seq<u8> {
    seq![105u8, 110u8, 99u8, 108u8, 117u8, 100u8, 101u8, 105u8, 102u8]
}

/// Whether an entry of the file at `including` asks for another file: a `path`
/// in `[include]`, or in `[includeIf "cond"]` where the condition holds.
pub open spec fn active_include(e: EntryView, including: Seq<u8>, opts: Options) -> bool {
    lower(e.key) == path_word() && ((lower(e.section) == include_word() && e.subsection is None) || (
    lower(e.section) == include_if_word() && e.subsection is Some && condition_holds(
        e.subsection.unwrap(),
        including,
        opt_view(opts.git_dir),
        opt_view(opts.branch_name),
        opt_view(opts.home_dir),
    )))
}

/// How an entry of the file at `path`, read at `depth`, is stored.
pub open spec fn stored(e: EntryView, path: Seq<u8>, depth: int) -> StoredView {
    StoredView {
        section: lower(e.section),
        subsection: e.subsection,
        key: lower(e.key),
        value: e.value,
        path: path,
        depth: depth,
    }
}

pub open spec fn join(a: Outcome, b: Outcome) -> Outcome {
    match a {
        Err(e) => Err(e),
        Ok(x) => match b {
            Err(e) => Err(e),
            Ok(y) => Ok(x + y),
        },
    }
}

pub open spec fn failed(e: Error) -> Outcome {
    Err(StopView::Failed(e))
}

pub open spec fn parse_failure(p: int) -> Error {
    Error::ParserOrIoError(ParserOrIoError::Parser(ParseError { position: p as usize }))
}

/// What an entry of the file at `path`, read at `depth`, brings in after
/// itself: nothing unless it is an active include; past the depth limit an
/// error or nothing; else what its target expands to, where a missing target
/// brings nothing.
pub open spec fn nested_of(files: Seq<(Seq<u8>, FileView)>, opts: Options, path: Seq<u8>, e: EntryView, depth: int) -> Outcome
    decreases opts.max_depth - depth, 0int,
{
    if !active_include(e, path, opts) {
        Ok(Seq::empty())
    } else if depth + 1 > opts.max_depth {
        if opts.error_on_max_depth_exceeded {
            failed(Error::IncludeDepthExceeded { max_depth: opts.max_depth })
        } else {
            Ok(Seq::empty())
        }
    } else {
        match resolve_include(e.value, path, opt_view(opts.home_dir)) {
            None => Ok(Seq::empty()),
            Some(t) => match lookup(files, t) {
                None => Err(StopView::NeedsFile(t)),
                Some(FileView::NotFound) => Ok(Seq::empty()),
                Some(FileView::Unreadable) => failed(Error::ParserOrIoError(ParserOrIoError::Io(IoErrorKind::Unreadable))),
                Some(FileView::Contents(c)) => match parse_spec(c) {
                    Err(p) => failed(parse_failure(p)),
                    Ok(inner) => expand(files, opts, t, inner, depth + 1),
                },
            },
        }
    }
}

/// Whether an entry stands in an `[include]` or `[includeIf "..."]` section:
/// such entries only direct inclusion and are not stored.
pub open spec fn in_include_section(e: EntryView) -> bool {
    (lower(e.section) == include_word() && e.subsection is None) || (lower(e.section) == include_if_word()
        && e.subsection is Some)
}

/// What an entry of the file at `path`, read at `depth`, adds of itself.
pub open spec fn own_entries(e: EntryView, path: Seq<u8>, depth: int) -> Seq<StoredView> {
    if in_include_section(e) {
        Seq::empty()
    } else {
        seq![stored(e, path, depth)]
    }
}

/// The entries `es` of the file at `path`, read at `depth`: each one outside
/// the include sections is stored, and each is followed in place by what it
/// brings in.
pub open spec fn expand(files: Seq<(Seq<u8>, FileView)>, opts: Options, path: Seq<u8>, es: Seq<EntryView>, depth: int) -> Outcome
    decreases opts.max_depth - depth, es.len() as int,
{
    if es.len() == 0 {
        Ok(Seq::empty())
    } else {
        join(
            join(Ok(own_entries(es[0], path, depth)), nested_of(files, opts, path, es[0], depth)),
            expand(files, opts, path, es.drop_first(), depth),
        )
    }
}

/// What one seed file contributes: it must exist.
pub open spec fn load_seed(files: Seq<(Seq<u8>, FileView)>, opts: Options, path: Seq<u8>) -> Outcome {
    match lookup(files, path) {
        None => Err(StopView::NeedsFile(path)),
        Some(FileView::NotFound) => failed(Error::ParserOrIoError(ParserOrIoError::Io(IoErrorKind::NotFound))),
        Some(FileView::Unreadable) => failed(Error::ParserOrIoError(ParserOrIoError::Io(IoErrorKind::Unreadable))),
        Some(FileView::Contents(c)) => match parse_spec(c) {
            Err(p) => failed(parse_failure(p)),
            Ok(es) => expand(files, opts, path, es, 0),
        },
    }
}

/// The seeds, loaded one after the other.
pub open spec fn load_all(files: Seq<(Seq<u8>, FileView)>, opts: Options, seeds: Seq<Seq<u8>>) -> Outcome
    decreases seeds.len(),
{
    if seeds.len() == 0 {
        Ok(Seq::empty())
    } else {
        join(load_seed(files, opts, seeds[0]), load_all(files, opts, seeds.drop_first()))
    }
}

pub open spec fn prepend(acc: Seq<StoredView>, r: Outcome) -> Outcome {
    match r {
        Ok(x) => Ok(acc + x),
        Err(e) => Err(e),
    }
}

proof fn lemma_prepend_join(acc: Seq<StoredView>, x: Seq<StoredView>, rest: Outcome)
    ensures
        prepend(acc, join(Ok(x), rest)) == prepend(acc + x, rest),
{
    match rest {
        Ok(y) => {
            assert(acc + (x + y) =~= (acc + x) + y);
        },
        Err(_) => {},
    }
}

fn is_in_include_section(e: &ParsedEntry) -> (r: bool)
    ensures
        r == in_include_section(e@),
{
    let plain: Vec<u8> = vec![105u8, 110u8, 99u8, 108u8, 117u8, 100u8, 101u8];
    let include_if: Vec<u8> = vec![105u8, 110u8, 99u8, 108u8, 117u8, 100u8, 101u8, 105u8, 102u8];
    assert(plain@ =~= include_word() && include_if@ =~= include_if_word());
    let section = lower_bytes(e.section.as_slice());
    (bytes_equal(section.as_slice(), plain.as_slice()) && e.subsection.is_none()) || (bytes_equal(
        section.as_slice(),
        include_if.as_slice(),
    ) && e.subsection.is_some())
}

fn is_active_include(e: &ParsedEntry, including: &[u8], opts: &Options) -> (r: bool)
    ensures
        r == active_include(e@, including@, *opts),
{
    let path: Vec<u8> = vec![112u8, 97u8, 116u8, 104u8];
    let plain: Vec<u8> = vec![105u8, 110u8, 99u8, 108u8, 117u8, 100u8, 101u8];
    let include_if: Vec<u8> = vec![105u8, 110u8, 99u8, 108u8, 117u8, 100u8, 101u8, 105u8, 102u8];
    assert(path@ =~= path_word() && plain@ =~= include_word() && include_if@ =~= include_if_word());
    if !bytes_equal(lower_bytes(e.key.as_slice()).as_slice(), path.as_slice()) {
        return false;
    }
    let section = lower_bytes(e.section.as_slice());
    if bytes_equal(section.as_slice(), plain.as_slice()) && e.subsection.is_none() {
        return true;
    }
    if bytes_equal(section.as_slice(), include_if.as_slice()) {
        match &e.subsection {
            Some(cond) => condition_matches(
                cond.as_slice(),
                including,
                &opts.git_dir,
                &opts.branch_name,
                &opts.home_dir,
            ),
            None => false,
        }
    } else {
        false
    }
}

fn store_entry(e: &ParsedEntry, path: &[u8], depth: u8) -> (r: StoredEntry)
    ensures
        r@ == stored(e@, path@, depth as int),
{
    let subsection = match &e.subsection {
        Some(s) => Some(copy_bytes(s.as_slice())),
        None => None,
    };
    StoredEntry {
        section: lower_bytes(e.section.as_slice()),
        subsection,
        key: lower_bytes(e.key.as_slice()),
        value: copy_bytes(e.value.as_slice()),
        path: copy_bytes(path),
        depth,
    }
}

fn include_into(
    files: &FileSet,
    opts: &Options,
    path: &[u8],
    e: &ParsedEntry,
    depth: u8,
    out: &mut Vec<StoredEntry>,
) -> (r: Result<(), LoadStop>)
    requires
        depth <= opts.max_depth,
    ensures
        match (r, nested_of(files@, *opts, path@, e@, depth as int)) {
            (Ok(_), Ok(s)) => stored_views(final(out)@) == stored_views(old(out)@) + s,
            (Err(h), Err(sh)) => h@ == sh,
            _ => false,
        },
    decreases opts.max_depth - depth, 0int,
{
    if !is_active_include(e, path, opts) {
        assert(stored_views(out@) + Seq::<StoredView>::empty() =~= stored_views(out@));
        return Ok(());
    }
    if depth >= opts.max_depth {
        if opts.error_on_max_depth_exceeded {
            return Err(LoadStop::Failed(Error::IncludeDepthExceeded { max_depth: opts.max_depth }));
        }
        assert(stored_views(out@) + Seq::<StoredView>::empty() =~= stored_views(out@));
        return Ok(());
    }
    assert(stored_views(out@) + Seq::<StoredView>::empty() =~= stored_views(out@));
    match resolve_include_path(e.value.as_slice(), path, &opts.home_dir) {
        None => Ok(()),
        Some(target) => match files.find(target.as_slice()) {
            None => Err(LoadStop::NeedsFile(target)),
            Some(k) => match &files.files[k].state {
                FileState::NotFound => Ok(()),
                FileState::Unreadable => Err(LoadStop::Failed(Error::ParserOrIoError(ParserOrIoError::Io(IoErrorKind::Unreadable)))),
                FileState::Contents(c) => match parse_config(c.as_slice()) {
                    Err(pe) => Err(LoadStop::Failed(Error::ParserOrIoError(ParserOrIoError::Parser(pe)))),
                    Ok(inner) => expand_into(files, opts, target.as_slice(), &inner, depth + 1, out),
                },
            },
        },
    }
}

fn expand_into(
    files: &FileSet,
    opts: &Options,
    path: &[u8],
    es: &Vec<ParsedEntry>,
    depth: u8,
    out: &mut Vec<StoredEntry>,
) -> (r: Result<(), LoadStop>)
    requires
        depth <= opts.max_depth,
    ensures
        match (r, expand(files@, *opts, path@, entry_views(es@), depth as int)) {
            (Ok(_), Ok(s)) => stored_views(final(out)@) == stored_views(old(out)@) + s,
            (Err(h), Err(sh)) => h@ == sh,
            _ => false,
        },
    decreases opts.max_depth - depth, 1int,
{
    let ghost start = stored_views(out@);
    let ghost all = entry_views(es@);
    let ghost mut acc: Seq<StoredView> = Seq::empty();
    let mut i: usize = 0;
    assert(all.subrange(0, all.len() as int) =~= all);
    assert(start + acc =~= start);
    while i < es.len()
        invariant
            i <= es.len(),
            depth <= opts.max_depth,
            all == entry_views(es@),
            stored_views(out@) == start + acc,
            expand(files@, *opts, path@, all, depth as int) == prepend(
                acc,
                expand(files@, *opts, path@, all.subrange(i as int, all.len() as int), depth as int),
            ),
        decreases es.len() - i,
    {
        let e = &es[i];
        let ghost rest_view = all.subrange(i as int, all.len() as int);
        assert(rest_view[0] == e@);
        assert(rest_view.drop_first() =~= all.subrange(i + 1, all.len() as int));
        let ghost before = stored_views(out@);
        let ghost own = own_entries(e@, path@, depth as int);
        if !is_in_include_section(e) {
            let s = store_entry(e, path, depth);
            out.push(s);
            assert(stored_views(out@) =~= before.push(s@));
        }
        assert(stored_views(out@) =~= before + own);
        let ghost mid = stored_views(out@);
        let r = include_into(files, opts, path, e, depth, out);
        if r.is_err() {
            return r;
        }
        proof {
            let nested = stored_views(out@).subrange(mid.len() as int, stored_views(out@).len() as int);
            assert(stored_views(out@) =~= mid + nested);
            let later = expand(files@, *opts, path@, all.subrange(i + 1, all.len() as int), depth as int);
            assert(expand(files@, *opts, path@, rest_view, depth as int) == join(
                join(Ok(own), nested_of(files@, *opts, path@, e@, depth as int)),
                later,
            ));
            match nested_of(files@, *opts, path@, e@, depth as int) {
                Ok(n) => {
                    assert(n =~= nested);
                },
                Err(_) => {},
            }
            assert(join(Ok(own), nested_of(files@, *opts, path@, e@, depth as int)) == Ok::<Seq<StoredView>, StopView>(own + nested));
            lemma_prepend_join(acc, own + nested, expand(files@, *opts, path@, all.subrange(i + 1, all.len() as int), depth as int));
            assert(acc + (own + nested) =~= (acc + own) + nested);
            acc = (acc + own) + nested;
            assert(stored_views(out@) =~= start + acc);
        }
        i = i + 1;
    }
    assert(acc + Seq::<StoredView>::empty() =~= acc);
    assert(stored_views(out@) =~= start + acc);
    Ok(())
}

fn seed_into(files: &FileSet, opts: &Options, seed: &[u8], out: &mut Vec<StoredEntry>) -> (r: Result<(), LoadStop>)
    ensures
        match (r, load_seed(files@, *opts, seed@)) {
            (Ok(_), Ok(s)) => stored_views(final(out)@) == stored_views(old(out)@) + s,
            (Err(h), Err(sh)) => h@ == sh,
            _ => false,
        },
{
    match files.find(seed) {
        None => Err(LoadStop::NeedsFile(copy_bytes(seed))),
        Some(k) => match &files.files[k].state {
            FileState::NotFound => Err(LoadStop::Failed(Error::ParserOrIoError(ParserOrIoError::Io(IoErrorKind::NotFound)))),
            FileState::Unreadable => Err(LoadStop::Failed(Error::ParserOrIoError(ParserOrIoError::Io(IoErrorKind::Unreadable)))),
            FileState::Contents(c) => match parse_config(c.as_slice()) {
                Err(pe) => Err(LoadStop::Failed(Error::ParserOrIoError(ParserOrIoError::Parser(pe)))),
                Ok(es) => expand_into(files, opts, seed, &es, 0, out),
            },
        },
    }
}

/// Loads the seed files in order, each with what it includes, from the files
/// that `files` records. Stops with the path of the first file it needs to
/// know of and that `files` holds no record of.
pub fn load(seeds: &Vec<Vec<u8>>, files: &FileSet, opts: &Options) -> (r: Result<GitConfig, LoadStop>)
    ensures
        match (r, load_all(files@, *opts, seeds@.map_values(|p: Vec<u8>| p@))) {
            (Ok(c), Ok(s)) => c@ == s,
            (Err(h), Err(sh)) => h@ == sh,
            _ => false,
        },
{
    let ghost all = seeds@.map_values(|p: Vec<u8>| p@);
    let mut out: Vec<StoredEntry> = Vec::new();
    let mut i: usize = 0;
    assert(all.subrange(0, all.len() as int) =~= all);
    assert(stored_views(out@) =~= Seq::<StoredView>::empty());
    assert(Seq::<StoredView>::empty() + Seq::<StoredView>::empty() =~= Seq::<StoredView>::empty());
    while i < seeds.len()
        invariant
            i <= seeds.len(),
            all == seeds@.map_values(|p: Vec<u8>| p@),
            load_all(files@, *opts, all) == prepend(
                stored_views(out@),
                load_all(files@, *opts, all.subrange(i as int, all.len() as int)),
            ),
        decreases seeds.len() - i,
    {
        let seed = &seeds[i];
        let ghost rest_view = all.subrange(i as int, all.len() as int);
        assert(rest_view[0] == seed@);
        assert(rest_view.drop_first() =~= all.subrange(i + 1, all.len() as int));
        let ghost before = stored_views(out@);
        let r = seed_into(files, opts, seed.as_slice(), &mut out);
        if r.is_err() {
            return Err(r.unwrap_err());
        }
        proof {
            let added = stored_views(out@).subrange(before.len() as int, stored_views(out@).len() as int);
            assert(stored_views(out@) =~= before + added);
            assert(load_all(files@, *opts, rest_view) == join(
                load_seed(files@, *opts, seed@),
                load_all(files@, *opts, all.subrange(i + 1, all.len() as int)),
            ));
            match load_seed(files@, *opts, seed@) {
                Ok(n) => {
                    assert(n =~= added);
                },
                Err(_) => {},
            }
            lemma_prepend_join(before, added, load_all(files@, *opts, all.subrange(i + 1, all.len() as int)));
        }
        i = i + 1;
    }
    assert(stored_views(out@) + Seq::<StoredView>::empty() =~= stored_views(out@));
    Ok(GitConfig::from_entries(out))
}

} // verus!
