//! Include targets and the conditions of `[includeIf "..."]` sections.
use vstd::prelude::*;
use crate::bytes::{
    append_bytes, copy_bytes, ends_with, has_prefix, starts_with, BACKSLASH, COLON, DOT, SLASH, STAR,
    TILDE,
};
use crate::glob::{glob_matches, wildmatch};
use crate::parse::is_alpha;
use crate::refname::{check_partial_name, partial_name_error};

verus! {

/// The directory part of a path: everything before its last `/`, or nothing.
pub open spec fn parent_dir(p: Seq<u8>) -> Seq<u8>
    decreases p.len(),
{
    if p.len() == 0 {
        p
    } else if p.last() == SLASH {
        p.drop_last()
    } else {
        parent_dir(p.drop_last())
    }
}

pub open spec fn tilde_slash() -> Seq<u8> {
    seq![TILDE, SLASH]
}

/// The file that an include's `path` value names, seen from the file that holds
/// it: `~` stands for the home directory, absolute paths stay, and relative
/// ones start from the including file's directory. Nothing without a home
/// directory to put in place of `~`.
pub open spec fn resolve_include(raw: Seq<u8>, including: Seq<u8>, home: Option<Seq<u8>>) -> Option<Seq<u8>> {
    if raw == seq![TILDE] || starts_with(raw, tilde_slash()) {
        match home {
            Some(h) => Some(h + raw.subrange(1, raw.len() as int)),
            None => None,
        }
    } else if raw.len() > 0 && raw[0] == SLASH {
        Some(raw)
    } else {
        Some(parent_dir(including) + seq![SLASH] + raw)
    }
}

pub open spec fn is_absolute(p: Seq<u8>) -> bool {
    (p.len() > 0 && p[0] == SLASH) || (p.len() >= 2 && is_alpha(p[0]) && p[1] == COLON)
}

/// A pattern that may match anywhere below the root: `**/` in front.
pub open spec fn anchor(p: Seq<u8>) -> Seq<u8> {
    if p.len() > 0 && p[0] == SLASH {
        seq![STAR, STAR] + p
    } else {
        seq![STAR, STAR, SLASH] + p
    }
}

/// A pattern that ends in `/` matches everything below: `**` behind it.
pub open spec fn dir_suffix(p: Seq<u8>) -> Seq<u8> {
    if ends_with(p, SLASH) {
        p + seq![STAR, STAR]
    } else {
        p
    }
}

/// The pattern of a `gitdir:` condition, ready to match: `~/` and `./` are
/// expanded, a relative pattern is anchored, a trailing `/` widened.
pub open spec fn gitdir_pattern(pat: Seq<u8>, including: Seq<u8>, home: Option<Seq<u8>>) -> Option<Seq<u8>> {
    let expanded = if starts_with(pat, tilde_slash()) {
        match home {
            Some(h) => Some(h + pat.subrange(1, pat.len() as int)),
            None => None,
        }
    } else if starts_with(pat, seq![DOT, SLASH]) {
        Some(parent_dir(including) + pat.subrange(1, pat.len() as int))
    } else {
        Some(pat)
    };
    match expanded {
        Some(e) => Some(dir_suffix(if is_absolute(e) { e } else { anchor(e) })),
        None => None,
    }
}

/// A path with each backslash turned into a forward slash.
pub open spec fn forward_slashes(t: Seq<u8>) -> Seq<u8> {
    t.map_values(|b: u8| if b == BACKSLASH { SLASH } else { b })
}

/// `gitdir:`
pub open spec fn gitdir_prefix() -> Seq<u8> {
    seq![103u8, 105u8, 116u8, 100u8, 105u8, 114u8, 58u8]
}

/// `gitdir/i:`
pub open spec fn gitdir_i_prefix() -> Seq<u8> {
    seq![103u8, 105u8, 116u8, 100u8, 105u8, 114u8, 47u8, 105u8, 58u8]
}

/// `onbranch:`
pub open spec fn onbranch_prefix() -> Seq<u8> {
    seq![111u8, 110u8, 98u8, 114u8, 97u8, 110u8, 99u8, 104u8, 58u8]
}

/// `refs/heads/`
pub open spec fn heads_prefix() -> Seq<u8> {
    seq![114u8, 101u8, 102u8, 115u8, 47u8, 104u8, 101u8, 97u8, 100u8, 115u8, 47u8]
}

pub open spec fn gitdir_holds(pat: Seq<u8>, including: Seq<u8>, git_dir: Option<Seq<u8>>, home: Option<Seq<u8>>, fold: bool) -> bool {
    match git_dir {
        None => false,
        Some(g) => match gitdir_pattern(pat, including, home) {
            None => false,
            Some(p) => glob_matches(p, forward_slashes(g), fold),
        },
    }
}

/// An `onbranch:` condition holds for a valid branch name under
/// `refs/heads/` whose short name the pattern matches.
pub open spec fn onbranch_holds(pat: Seq<u8>, branch: Option<Seq<u8>>) -> bool {
    match branch {
        None => false,
        Some(b) => partial_name_error(b) is None && starts_with(b, heads_prefix()) && glob_matches(
            dir_suffix(anchor(pat)),
            b.subrange(11, b.len() as int),
            false,
        ),
    }
}

/// Whether the condition of an `[includeIf "..."]` section holds for a file at
/// `including`. Unknown kinds of condition never hold.
pub open spec fn condition_holds(
    cond: Seq<u8>,
    including: Seq<u8>,
    git_dir: Option<Seq<u8>>,
    branch: Option<Seq<u8>>,
    home: Option<Seq<u8>>,
) -> bool {
    if starts_with(cond, gitdir_prefix()) {
        gitdir_holds(cond.subrange(7, cond.len() as int), including, git_dir, home, false)
    } else if starts_with(cond, gitdir_i_prefix()) {
        gitdir_holds(cond.subrange(9, cond.len() as int), including, git_dir, home, true)
    } else if starts_with(cond, onbranch_prefix()) {
        onbranch_holds(cond.subrange(9, cond.len() as int), branch)
    } else {
        false
    }
}

pub fn parent_of(p: &[u8]) -> (r: Vec<u8>)
    ensures
        r@ == parent_dir(p@),
{
    let mut j = p.len();
    assert(p@.subrange(0, j as int) =~= p@);
    while j > 0 && p[j - 1] != SLASH
        invariant
            j <= p.len(),
            parent_dir(p@) == parent_dir(p@.subrange(0, j as int)),
        decreases j,
    {
        assert(p@.subrange(0, j as int).drop_last() =~= p@.subrange(0, j - 1));
        j = j - 1;
    }
    if j == 0 {
        Vec::new()
    } else {
        assert(p@.subrange(0, j as int).drop_last() =~= p@.subrange(0, j - 1));
        copy_bytes(&p[0..j - 1])
    }
}

fn tail_from(s: &[u8], k: usize) -> (r: Vec<u8>)
    requires
        k <= s.len(),
    ensures
        r@ == s@.subrange(k as int, s@.len() as int),
{
    copy_bytes(&s[k..s.len()])
}

fn joined(a: &[u8], b: &[u8]) -> (r: Vec<u8>)
    ensures
        r@ == a@ + b@,
{
    let mut r = copy_bytes(a);
    append_bytes(&mut r, b);
    r
}

/// Resolves the target of an include.
pub fn resolve_include_path(raw: &[u8], including: &[u8], home: &Option<Vec<u8>>) -> (r: Option<Vec<u8>>)
    ensures
        match (r, resolve_include(raw@, including@, crate::parse::opt_view(*home))) {
            (Some(v), Some(sv)) => v@ == sv,
            (None, None) => true,
            _ => false,
        },
{
    let ts: Vec<u8> = vec![TILDE, SLASH];
    assert(ts@ =~= tilde_slash());
    let lone = raw.len() == 1 && raw[0] == TILDE;
    assert(lone == (raw@ == seq![TILDE])) by {
        if raw@.len() == 1 && raw@[0] == TILDE {
            assert(raw@ =~= seq![TILDE]);
        }
    }
    if lone || has_prefix(raw, ts.as_slice()) {
        match home {
            Some(h) => Some(joined(h.as_slice(), tail_from(raw, 1).as_slice())),
            None => None,
        }
    } else if raw.len() > 0 && raw[0] == SLASH {
        Some(copy_bytes(raw))
    } else {
        let mut dir = parent_of(including);
        dir.push(SLASH);
        let r = joined(dir.as_slice(), raw);
        Some(r)
    }
}

fn anchored(p: &[u8]) -> (r: Vec<u8>)
    ensures
        r@ == anchor(p@),
{
    let mut r: Vec<u8> = Vec::new();
    r.push(STAR);
    r.push(STAR);
    if !(p.len() > 0 && p[0] == SLASH) {
        r.push(SLASH);
    }
    append_bytes(&mut r, p);
    r
}

fn with_dir_suffix(p: Vec<u8>) -> (r: Vec<u8>)
    ensures
        r@ == dir_suffix(p@),
{
    let mut p = p;
    if p.len() > 0 && p[p.len() - 1] == SLASH {
        p.push(STAR);
        p.push(STAR);
    }
    p
}

fn gitdir_pattern_of(pat: &[u8], including: &[u8], home: &Option<Vec<u8>>) -> (r: Option<Vec<u8>>)
    ensures
        match (r, gitdir_pattern(pat@, including@, crate::parse::opt_view(*home))) {
            (Some(v), Some(sv)) => v@ == sv,
            (None, None) => true,
            _ => false,
        },
{
    let ts: Vec<u8> = vec![TILDE, SLASH];
    let ds: Vec<u8> = vec![DOT, SLASH];
    assert(ts@ =~= tilde_slash());
    assert(ds@ =~= seq![DOT, SLASH]);
    let expanded = if has_prefix(pat, ts.as_slice()) {
        match home {
            Some(h) => joined(h.as_slice(), tail_from(pat, 1).as_slice()),
            None => {
                return None;
            },
        }
    } else if has_prefix(pat, ds.as_slice()) {
        joined(parent_of(including).as_slice(), tail_from(pat, 1).as_slice())
    } else {
        copy_bytes(pat)
    };
    let absolute = (expanded.len() > 0 && expanded[0] == SLASH) || (expanded.len() >= 2 && ((65u8
        <= expanded[0] && expanded[0] <= 90u8) || (97u8 <= expanded[0] && expanded[0] <= 122u8))
        && expanded[1] == COLON);
    let placed = if absolute {
        expanded
    } else {
        anchored(expanded.as_slice())
    };
    Some(with_dir_suffix(placed))
}

fn with_forward_slashes(t: &[u8]) -> (r: Vec<u8>)
    ensures
        r@ == forward_slashes(t@),
{
    let mut r: Vec<u8> = Vec::new();
    let mut i: usize = 0;
    while i < t.len()
        invariant
            i <= t.len(),
            r@ == forward_slashes(t@.subrange(0, i as int)),
        decreases t.len() - i,
    {
        let b = if t[i] == BACKSLASH { SLASH } else { t[i] };
        r.push(b);
        i = i + 1;
        assert(forward_slashes(t@.subrange(0, i as int)) =~= forward_slashes(t@.subrange(0, i - 1)).push(b));
    }
    assert(t@.subrange(0, t.len() as int) =~= t@);
    r
}

fn gitdir_test(pat: &[u8], including: &[u8], git_dir: &Option<Vec<u8>>, home: &Option<Vec<u8>>, fold: bool) -> (r: bool)
    ensures
        r == gitdir_holds(pat@, including@, crate::parse::opt_view(*git_dir), crate::parse::opt_view(*home), fold),
{
    match git_dir {
        None => false,
        Some(g) => match gitdir_pattern_of(pat, including, home) {
            None => false,
            Some(p) => wildmatch(p.as_slice(), with_forward_slashes(g.as_slice()).as_slice(), fold),
        },
    }
}

/// Evaluates the condition of an `[includeIf "..."]` section.
pub fn condition_matches(
    cond: &[u8],
    including: &[u8],
    git_dir: &Option<Vec<u8>>,
    branch: &Option<Vec<u8>>,
    home: &Option<Vec<u8>>,
) -> (r: bool)
    ensures
        r == condition_holds(
            cond@,
            including@,
            crate::parse::opt_view(*git_dir),
            crate::parse::opt_view(*branch),
            crate::parse::opt_view(*home),
        ),
{
    let gitdir: Vec<u8> = vec![103u8, 105u8, 116u8, 100u8, 105u8, 114u8, 58u8];
    let gitdir_i: Vec<u8> = vec![103u8, 105u8, 116u8, 100u8, 105u8, 114u8, 47u8, 105u8, 58u8];
    let onbranch: Vec<u8> = vec![111u8, 110u8, 98u8, 114u8, 97u8, 110u8, 99u8, 104u8, 58u8];
    let heads: Vec<u8> = vec![114u8, 101u8, 102u8, 115u8, 47u8, 104u8, 101u8, 97u8, 100u8, 115u8, 47u8];
    assert(gitdir@ =~= gitdir_prefix());
    assert(gitdir_i@ =~= gitdir_i_prefix());
    assert(onbranch@ =~= onbranch_prefix());
    assert(heads@ =~= heads_prefix());
    if has_prefix(cond, gitdir.as_slice()) {
        gitdir_test(tail_from(cond, 7).as_slice(), including, git_dir, home, false)
    } else if has_prefix(cond, gitdir_i.as_slice()) {
        gitdir_test(tail_from(cond, 9).as_slice(), including, git_dir, home, true)
    } else if has_prefix(cond, onbranch.as_slice()) {
        match branch {
            None => false,
            Some(b) => {
                if check_partial_name(b.as_slice()).is_none() && has_prefix(b.as_slice(), heads.as_slice()) {
                    let pattern = with_dir_suffix(anchored(tail_from(cond, 9).as_slice()));
                    wildmatch(pattern.as_slice(), tail_from(b.as_slice(), 11).as_slice(), false)
                } else {
                    false
                }
            },
        }
    } else {
        false
    }
}

} // verus!
