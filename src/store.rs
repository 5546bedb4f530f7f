//! The flattened configuration: every entry of every loaded file, in load order.
use vstd::prelude::*;
use bstr::ByteSlice;
use vstd::string::StringSliceAdditionalSpecFns;
use crate::bytes::{bytes_equal, copy_bytes, lower, lower_bytes};
use crate::parse::opt_view;

verus! {

/// One stored entry: names are kept lower-cased, the subsection as written.
#[derive(Debug)]
pub struct StoredEntry {
    pub section: Vec<u8>,
    pub subsection: Option<Vec<u8>>,
    pub key: Vec<u8>,
    pub value: Vec<u8>,
    /// The file that held the entry.
    pub path: Vec<u8>,
    /// Include edges between the seed file and the file that held the entry.
    pub depth: u8,
}

pub struct StoredView {
    pub section: Seq<u8>,
    pub subsection: Option<Seq<u8>>,
    pub key: Seq<u8>,
    pub value: Seq<u8>,
    pub path: Seq<u8>,
    pub depth: int,
}

impl View for StoredEntry {
    type V = StoredView;

    open spec fn view(&self) -> StoredView {
        StoredView {
            section: self.section@,
            subsection: opt_view(self.subsection),
            key: self.key@,
            value: self.value@,
            path: self.path@,
            depth: self.depth as int,
        }
    }
}

pub open spec fn stored_views(v: Seq<StoredEntry>) -> Seq<StoredView> {
    v.map_values(|e: StoredEntry| e@)
}

/// A loaded configuration.
#[derive(Debug)]
pub struct GitConfig {
    pub(crate) entries: Vec<StoredEntry>,
}

impl View for GitConfig {
    type V = Seq<StoredView>;

    closed spec fn view(&self) -> Seq<StoredView> {
        stored_views(self.entries@)
    }
}

/// The error of a lookup that finds no value.
#[derive(PartialEq, Eq, Structural, Clone, Copy, Debug)]
pub enum LookupError {
    NotFound,
}

/// A value that is not one of git's boolean words.
#[derive(PartialEq, Eq, Debug)]
pub struct BooleanError {
    pub value: Vec<u8>,
}

pub open spec fn str_bytes(s: &str) -> Seq<u8> {
    s.spec_bytes()
}

pub open spec fn opt_str_bytes(s: Option<&str>) -> Option<Seq<u8>> {
    match s {
        Some(t) => Some(t.spec_bytes()),
        None => None,
    }
}

/// Whether an entry answers a query: section and key compared without case,
/// the subsection exactly.
pub open spec fn key_matches(e: StoredView, section: Seq<u8>, subsection: Option<Seq<u8>>, key: Seq<u8>) -> bool {
    e.section == lower(section) && e.subsection == subsection && e.key == lower(key)
}

/// The values of all entries that answer a query, in store order.
pub open spec fn values_of(es: Seq<StoredView>, section: Seq<u8>, subsection: Option<Seq<u8>>, key: Seq<u8>) -> Seq<Seq<u8>>
    decreases es.len(),
{
    if es.len() == 0 {
        Seq::empty()
    } else {
        let rest = values_of(es.drop_last(), section, subsection, key);
        if key_matches(es.last(), section, subsection, key) {
            rest.push(es.last().value)
        } else {
            rest
        }
    }
}

/// The value that a single-value query gives: the last one.
pub open spec fn last_value(es: Seq<StoredView>, section: Seq<u8>, subsection: Option<Seq<u8>>, key: Seq<u8>) -> Option<Seq<u8>> {
    let vs = values_of(es, section, subsection, key);
    if vs.len() == 0 {
        None
    } else {
        Some(vs.last())
    }
}

pub open spec fn word_true() -> Seq<u8> {
    seq![116u8, 114u8, 117u8, 101u8]
}

pub open spec fn word_yes() -> Seq<u8> {
    seq![121u8, 101u8, 115u8]
}

pub open spec fn word_on() -> Seq<u8> {
    seq![111u8, 110u8]
}

pub open spec fn word_one() -> Seq<u8> {
    seq![49u8]
}

pub open spec fn word_false() -> Seq<u8> {
    seq![102u8, 97u8, 108u8, 115u8, 101u8]
}

pub open spec fn word_no() -> Seq<u8> {
    seq![110u8, 111u8]
}

pub open spec fn word_off() -> Seq<u8> {
    seq![111u8, 102u8, 102u8]
}

pub open spec fn word_zero() -> Seq<u8> {
    seq![48u8]
}

/// git's reading of a value as a boolean, without regard to case; the empty
/// value is true.
pub open spec fn boolean_of(v: Seq<u8>) -> Option<bool> {
    let l = lower(v);
    if l.len() == 0 || l == word_true() || l == word_yes() || l == word_on() || l == word_one() {
        Some(true)
    } else if l == word_false() || l == word_no() || l == word_off() || l == word_zero() {
        Some(false)
    } else {
        None
    }
}

/// What UTF-8 decoding with replacement of invalid sequences makes of bytes.
pub uninterp spec fn lossy_utf8(b: Seq<u8>) -> Seq<char>;

/// Relies on bstr's `ByteSlice::to_str_lossy`: the bytes read as UTF-8, each
/// invalid sequence replaced by U+FFFD; the result depends on the bytes alone.
#[verifier::external_body]
fn decode_lossy(b: &[u8]) -> (r: String)
    ensures
        r@ == lossy_utf8(b@),
        b@.len() == 0 ==> r@.len() == 0,
{
    b.to_str_lossy().into_owned()
}

fn query_bytes(s: &str) -> (r: &[u8])
    ensures
        r@ == str_bytes(s),
{
    s.as_bytes()
}

fn subsection_equal(a: &Option<Vec<u8>>, b: &Option<Vec<u8>>) -> (r: bool)
    ensures
        r == (opt_view(*a) == opt_view(*b)),
{
    match (a, b) {
        (None, None) => true,
        (Some(x), Some(y)) => bytes_equal(x.as_slice(), y.as_slice()),
        _ => false,
    }
}

impl GitConfig {
    pub(crate) fn from_entries(entries: Vec<StoredEntry>) -> (r: GitConfig)
        ensures
            r@ == stored_views(entries@),
    {
        GitConfig { entries }
    }

    /// The stored entries, in load order.
    pub fn entries(&self) -> (r: &[StoredEntry])
        ensures
            stored_views(r@) == self@,
    {
        self.entries.as_slice()
    }

    /// The number of stored entries, repeats included.
    pub fn len(&self) -> (r: usize)
        ensures
            r == self@.len(),
    {
        self.entries.len()
    }

    /// All values of `section.subsection.key`, in load order.
    pub fn raw_multi_value(&self, section: &str, subsection: Option<&str>, key: &str) -> (r: Result<Vec<Vec<u8>>, LookupError>)
        ensures
            ({
                let vs = values_of(self@, str_bytes(section), opt_str_bytes(subsection), str_bytes(key));
                match r {
                    Ok(v) => vs.len() > 0 && v@.map_values(|x: Vec<u8>| x@) == vs,
                    Err(e) => vs.len() == 0 && e == LookupError::NotFound,
                }
            }),
    {
        let sec = lower_bytes(query_bytes(section));
        let k = lower_bytes(query_bytes(key));
        let sub: Option<Vec<u8>> = match subsection {
            Some(s) => Some(copy_bytes(query_bytes(s))),
            None => None,
        };
        let ghost q_sub = opt_str_bytes(subsection);
        assert(opt_view(sub) == q_sub);
        let mut out: Vec<Vec<u8>> = Vec::new();
        let mut i: usize = 0;
        while i < self.entries.len()
            invariant
                i <= self.entries.len(),
                sec@ == lower(str_bytes(section)),
                k@ == lower(str_bytes(key)),
                opt_view(sub) == q_sub,
                out@.map_values(|x: Vec<u8>| x@) == values_of(
                    self@.subrange(0, i as int),
                    str_bytes(section),
                    q_sub,
                    str_bytes(key),
                ),
            decreases self.entries.len() - i,
        {
            let e = &self.entries[i];
            let hit = bytes_equal(e.section.as_slice(), sec.as_slice()) && subsection_equal(&e.subsection, &sub)
                && bytes_equal(e.key.as_slice(), k.as_slice());
            let ghost before = out@;
            assert(self@.subrange(0, i as int + 1).drop_last() =~= self@.subrange(0, i as int));
            assert(self@.subrange(0, i as int + 1).last() == e@);
            if hit {
                out.push(copy_bytes(e.value.as_slice()));
                assert(out@.map_values(|x: Vec<u8>| x@) =~= before.map_values(|x: Vec<u8>| x@).push(e.value@));
            }
            i = i + 1;
        }
        assert(self@.subrange(0, i as int) =~= self@);
        if out.len() == 0 {
            Err(LookupError::NotFound)
        } else {
            Ok(out)
        }
    }

    /// The last value of `section.subsection.key`.
    pub fn raw_value(&self, section: &str, subsection: Option<&str>, key: &str) -> (r: Result<Vec<u8>, LookupError>)
        ensures
            match (r, last_value(self@, str_bytes(section), opt_str_bytes(subsection), str_bytes(key))) {
                (Ok(v), Some(sv)) => v@ == sv,
                (Err(e), None) => e == LookupError::NotFound,
                _ => false,
            },
    {
        match self.raw_multi_value(section, subsection, key) {
            Err(e) => Err(e),
            Ok(mut vs) => {
                let ghost before = vs@;
                let last = vs.pop().unwrap();
                assert(before.map_values(|x: Vec<u8>| x@).last() == last@);
                Ok(last)
            },
        }
    }

    /// The last value of `section.subsection.key` read as a boolean, or
    /// nothing when the key is absent.
    pub fn boolean(&self, section: &str, subsection: Option<&str>, key: &str) -> (r: Option<Result<bool, BooleanError>>)
        ensures
            match last_value(self@, str_bytes(section), opt_str_bytes(subsection), str_bytes(key)) {
                None => r is None,
                Some(v) => match boolean_of(v) {
                    Some(b) => r == Some(Ok::<bool, BooleanError>(b)),
                    None => r matches Some(Err(e)) && e.value@ == v,
                },
            },
    {
        match self.raw_value(section, subsection, key) {
            Err(_) => None,
            Ok(v) => match parse_boolean(v.as_slice()) {
                Some(b) => Some(Ok(b)),
                None => Some(Err(BooleanError { value: v })),
            },
        }
    }

    /// All values of `section.subsection.key` as text, invalid UTF-8 replaced,
    /// or nothing when the key is absent.
    pub fn strings(&self, section: &str, subsection: Option<&str>, key: &str) -> (r: Option<Vec<String>>)
        ensures
            ({
                let vs = values_of(self@, str_bytes(section), opt_str_bytes(subsection), str_bytes(key));
                match r {
                    None => vs.len() == 0,
                    Some(ss) => vs.len() > 0 && ss@.len() == vs.len() && forall|i: int|
                        0 <= i < vs.len() ==> #[trigger] ss@[i]@ == lossy_utf8(vs[i]),
                }
            }),
    {
        match self.raw_multi_value(section, subsection, key) {
            Err(_) => None,
            Ok(vs) => {
                let ghost views = vs@.map_values(|x: Vec<u8>| x@);
                let mut out: Vec<String> = Vec::new();
                let mut i: usize = 0;
                while i < vs.len()
                    invariant
                        i <= vs.len(),
                        views == vs@.map_values(|x: Vec<u8>| x@),
                        out@.len() == i,
                        forall|j: int| 0 <= j < i ==> #[trigger] out@[j]@ == lossy_utf8(views[j]),
                    decreases vs.len() - i,
                {
                    out.push(decode_lossy(vs[i].as_slice()));
                    i = i + 1;
                }
                Some(out)
            },
        }
    }
}

fn parse_boolean(v: &[u8]) -> (r: Option<bool>)
    ensures
        r == boolean_of(v@),
{
    let l = lower_bytes(v);
    let t: Vec<u8> = vec![116u8, 114u8, 117u8, 101u8];
    let y: Vec<u8> = vec![121u8, 101u8, 115u8];
    let on: Vec<u8> = vec![111u8, 110u8];
    let one: Vec<u8> = vec![49u8];
    let f: Vec<u8> = vec![102u8, 97u8, 108u8, 115u8, 101u8];
    let n: Vec<u8> = vec![110u8, 111u8];
    let off: Vec<u8> = vec![111u8, 102u8, 102u8];
    let zero: Vec<u8> = vec![48u8];
    assert(t@ =~= word_true() && y@ =~= word_yes() && on@ =~= word_on() && one@ =~= word_one());
    assert(f@ =~= word_false() && n@ =~= word_no() && off@ =~= word_off() && zero@ =~= word_zero());
    let ls = l.as_slice();
    if l.len() == 0 || bytes_equal(ls, t.as_slice()) || bytes_equal(ls, y.as_slice()) || bytes_equal(ls, on.as_slice())
        || bytes_equal(ls, one.as_slice()) {
        Some(true)
    } else if bytes_equal(ls, f.as_slice()) || bytes_equal(ls, n.as_slice()) || bytes_equal(ls, off.as_slice())
        || bytes_equal(ls, zero.as_slice()) {
        Some(false)
    } else {
        None
    }
}

} // verus!
