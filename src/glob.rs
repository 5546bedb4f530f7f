//! Wildcard matching of paths and branch names.
use vstd::prelude::*;
use crate::bytes::{lower_byte, QUESTION, SLASH, STAR};

verus! {

pub open spec fn byte_matches(p: u8, t: u8, fold: bool) -> bool {
    if fold {
        lower_byte(p) == lower_byte(t)
    } else {
        p == t
    }
}

/// Whether `p[pi..]` matches `t[ti..]`: `?` stands for one byte but `/`, `*`
/// for any run of bytes without `/`, `**` standing as a whole path segment for
/// any run of bytes, and `**/` also for nothing where a path segment starts; a
/// `**` inside a segment is two `*`. Other bytes stand for themselves,
/// compared after ASCII lower-casing when `fold` holds.
pub open spec fn glob(p: Seq<u8>, pi: int, t: Seq<u8>, ti: int, fold: bool) -> bool
    decreases (p.len() - pi) + (t.len() - ti),
{
    if pi < 0 || ti < 0 || ti > t.len() {
        false
    } else if pi >= p.len() {
        ti == t.len()
    } else if p[pi] == STAR && pi + 1 < p.len() && p[pi + 1] == STAR && (pi == 0 || p[pi - 1] == SLASH) && (pi
        + 2 == p.len() || p[pi + 2] == SLASH) {
        glob(p, pi + 2, t, ti, fold) || (pi + 2 < p.len() && p[pi + 2] == SLASH && (ti == 0 || t[ti
            - 1] == SLASH) && glob(p, pi + 3, t, ti, fold)) || (ti < t.len() && glob(
            p,
            pi,
            t,
            ti + 1,
            fold,
        ))
    } else if p[pi] == STAR {
        glob(p, pi + 1, t, ti, fold) || (ti < t.len() && t[ti] != SLASH && glob(p, pi, t, ti + 1, fold))
    } else if p[pi] == QUESTION {
        ti < t.len() && t[ti] != SLASH && glob(p, pi + 1, t, ti + 1, fold)
    } else {
        ti < t.len() && byte_matches(p[pi], t[ti], fold) && glob(p, pi + 1, t, ti + 1, fold)
    }
}

/// Whether the whole of `pattern` matches the whole of `text`.
pub open spec fn glob_matches(pattern: Seq<u8>, text: Seq<u8>, fold: bool) -> bool {
    glob(pattern, 0, text, 0, fold)
}

fn fold_byte(b: u8) -> (r: u8)
    ensures
        r == lower_byte(b),
{
    if 65u8 <= b && b <= 90u8 {
        b + 32
    } else {
        b
    }
}

fn glob_from(p: &[u8], pi: usize, t: &[u8], ti: usize, fold: bool) -> (r: bool)
    requires
        pi <= p.len(),
        ti <= t.len(),
    ensures
        r == glob(p@, pi as int, t@, ti as int, fold),
    decreases (p.len() - pi) + (t.len() - ti),
{
    if pi >= p.len() {
        ti == t.len()
    } else if p[pi] == STAR && pi + 1 < p.len() && p[pi + 1] == STAR && (pi == 0 || p[pi - 1] == SLASH) && (pi
        + 2 == p.len() || p[pi + 2] == SLASH) {
        if glob_from(p, pi + 2, t, ti, fold) {
            true
        } else if pi + 2 < p.len() && p[pi + 2] == SLASH && (ti == 0 || t[ti - 1] == SLASH)
            && glob_from(p, pi + 3, t, ti, fold) {
            true
        } else {
            ti < t.len() && glob_from(p, pi, t, ti + 1, fold)
        }
    } else if p[pi] == STAR {
        if glob_from(p, pi + 1, t, ti, fold) {
            true
        } else {
            ti < t.len() && t[ti] != SLASH && glob_from(p, pi, t, ti + 1, fold)
        }
    } else if p[pi] == QUESTION {
        ti < t.len() && t[ti] != SLASH && glob_from(p, pi + 1, t, ti + 1, fold)
    } else {
        if ti >= t.len() {
            return false;
        }
        let same = if fold {
            fold_byte(p[pi]) == fold_byte(t[ti])
        } else {
            p[pi] == t[ti]
        };
        same && glob_from(p, pi + 1, t, ti + 1, fold)
    }
}

/// Matches `text` against `pattern` as a whole.
pub fn wildmatch(pattern: &[u8], text: &[u8], fold: bool) -> (r: bool)
    ensures
        r == glob_matches(pattern@, text@, fold),
{
    glob_from(pattern, 0, text, 0, fold)
}

} // verus!
