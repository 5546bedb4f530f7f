//! The git-config file grammar: section headers, entries, comments and values.
use vstd::prelude::*;
use crate::bytes::{
    append_bytes, copy_bytes, BACKSLASH, CLOSE_BRACKET, CR, DASH, DOT, EQUALS, HASH, NEWLINE, OPEN_BRACKET, QUOTE,
    SEMICOLON, SPACE, TAB,
};

verus! {

pub open spec fn is_blank(b: u8) -> bool {
    b == SPACE || b == TAB || b == CR
}

pub open spec fn is_alpha(b: u8) -> bool {
    (65u8 <= b && b <= 90u8) || (97u8 <= b && b <= 122u8)
}

/// Bytes allowed in section and key names.
pub open spec fn is_name_byte(b: u8) -> bool {
    is_alpha(b) || (48u8 <= b && b <= 57u8) || b == DASH
}

/// One `key = value` of a file, with the header it stands under.
#[derive(Debug)]
pub struct ParsedEntry {
    pub section: Vec<u8>,
    pub subsection: Option<Vec<u8>>,
    pub key: Vec<u8>,
    pub value: Vec<u8>,
}

pub struct EntryView {
    pub section: Seq<u8>,
    pub subsection: Option<Seq<u8>>,
    pub key: Seq<u8>,
    pub value: Seq<u8>,
}

pub open spec fn opt_view(o: Option<Vec<u8>>) -> Option<Seq<u8>> {
    match o {
        Some(v) => Some(v@),
        None => None,
    }
}

impl View for ParsedEntry {
    type V = EntryView;

    open spec fn view(&self) -> EntryView {
        EntryView {
            section: self.section@,
            subsection: opt_view(self.subsection),
            key: self.key@,
            value: self.value@,
        }
    }
}

pub open spec fn entry_views(v: Seq<ParsedEntry>) -> Seq<EntryView> {
    v.map_values(|e: ParsedEntry| e@)
}

/// Where and why a file does not follow the grammar.
#[derive(PartialEq, Eq, Structural, Clone, Copy, Debug)]
pub struct ParseError {
    /// Byte offset at which the grammar was violated.
    pub position: usize,
}

/// The first position at or after `i` that holds a newline, or the end.
pub open spec fn line_end(s: Seq<u8>, i: int) -> int
    decreases s.len() - i,
{
    if i >= s.len() {
        s.len() as int
    } else if s[i] == NEWLINE {
        i
    } else {
        line_end(s, i + 1)
    }
}

/// The first position at or after `i` that is not a name byte.
pub open spec fn name_end(s: Seq<u8>, i: int) -> int
    decreases s.len() - i,
{
    if i >= s.len() {
        s.len() as int
    } else if !is_name_byte(s[i]) {
        i
    } else {
        name_end(s, i + 1)
    }
}

/// The end of a dotted subsection name (`[section.sub]`).
pub open spec fn dotted_end(s: Seq<u8>, i: int) -> int
    decreases s.len() - i,
{
    if i >= s.len() {
        s.len() as int
    } else if !(is_name_byte(s[i]) || s[i] == DOT) {
        i
    } else {
        dotted_end(s, i + 1)
    }
}

/// The first position at or after `i` that is not a blank.
pub open spec fn blank_end(s: Seq<u8>, i: int) -> int
    decreases s.len() - i,
{
    if i >= s.len() {
        s.len() as int
    } else if !is_blank(s[i]) {
        i
    } else {
        blank_end(s, i + 1)
    }
}

/// The byte that a backslash escape stands for, if the escape is known.
pub open spec fn unescape(n: u8) -> Option<u8> {
    if n == 110u8 {
        Some(NEWLINE)
    } else if n == 116u8 {
        Some(TAB)
    } else if n == 98u8 {
        Some(8u8)
    } else if n == BACKSLASH || n == QUOTE {
        Some(n)
    } else {
        None
    }
}

/// A quoted subsection name, read from just after its opening quote: the name
/// (with `\x` standing for `x`) and the position after the closing quote.
pub open spec fn quoted_name(s: Seq<u8>, i: int, acc: Seq<u8>) -> Result<(Seq<u8>, int), int>
    decreases s.len() - i,
{
    if i >= s.len() {
        Err(i)
    } else if s[i] == QUOTE {
        Ok((acc, i + 1))
    } else if s[i] == NEWLINE {
        Err(i)
    } else if s[i] == BACKSLASH {
        if i + 1 < s.len() && s[i + 1] != NEWLINE {
            quoted_name(s, i + 2, acc.push(s[i + 1]))
        } else {
            Err(i)
        }
    } else {
        quoted_name(s, i + 1, acc.push(s[i]))
    }
}

/// A section header read from just after its `[`: the name, the subsection
/// and the position after the closing `]`.
pub open spec fn header(s: Seq<u8>, i: int) -> Result<(Seq<u8>, Option<Seq<u8>>, int), int> {
    let n = name_end(s, i);
    if n == i || n >= s.len() {
        Err(n)
    } else if s[n] == CLOSE_BRACKET {
        Ok((s.subrange(i, n), None, n + 1))
    } else if s[n] == DOT {
        let m = dotted_end(s, n + 1);
        if m == n + 1 || m >= s.len() || s[m] != CLOSE_BRACKET {
            Err(m)
        } else {
            Ok((s.subrange(i, n), Some(s.subrange(n + 1, m)), m + 1))
        }
    } else if is_blank(s[n]) {
        let k = blank_end(s, n);
        if k >= s.len() || s[k] != QUOTE {
            Err(k)
        } else {
            match quoted_name(s, k + 1, Seq::empty()) {
                Err(p) => Err(p),
                Ok((sub, e)) => if e >= s.len() || s[e] != CLOSE_BRACKET {
                    Err(e)
                } else {
                    Ok((s.subrange(i, n), Some(sub), e + 1))
                },
            }
        }
    } else {
        Err(n)
    }
}

/// A value read from just after its `=`: quotes are dropped and their content
/// kept verbatim, escapes are replaced, a backslash before a newline continues
/// the value on the next line, blanks around the value are dropped, and an
/// unquoted `#` or `;` starts a comment. `pending` holds blanks that count only
/// if more of the value follows. The result is the value and the position of
/// the newline, comment or end that closed it.
pub open spec fn value_scan(s: Seq<u8>, i: int, quoted: bool, acc: Seq<u8>, pending: Seq<u8>) -> Result<(Seq<u8>, int), int>
    decreases s.len() - i,
{
    if i >= s.len() {
        if quoted { Err(i) } else { Ok((acc, i)) }
    } else {
        let c = s[i];
        if c == NEWLINE {
            if quoted { Err(i) } else { Ok((acc, i)) }
        } else if c == BACKSLASH {
            if i + 1 >= s.len() {
                Err(i)
            } else if s[i + 1] == NEWLINE {
                value_scan(s, i + 2, quoted, acc, pending)
            } else {
                match unescape(s[i + 1]) {
                    Some(u) => value_scan(s, i + 2, quoted, acc + pending + seq![u], Seq::empty()),
                    None => Err(i),
                }
            }
        } else if c == QUOTE {
            value_scan(s, i + 1, !quoted, acc + pending, Seq::empty())
        } else if !quoted && (c == HASH || c == SEMICOLON) {
            Ok((acc, i))
        } else if is_blank(c) && !quoted {
            if acc.len() == 0 {
                value_scan(s, i + 1, quoted, acc, pending)
            } else {
                value_scan(s, i + 1, quoted, acc, pending.push(c))
            }
        } else {
            value_scan(s, i + 1, quoted, acc + pending + seq![c], Seq::empty())
        }
    }
}

pub open spec fn prepend_entries(xs: Seq<EntryView>, r: Result<Seq<EntryView>, int>) -> Result<Seq<EntryView>, int> {
    match r {
        Ok(rest) => Ok(xs + rest),
        Err(p) => Err(p),
    }
}

/// The entries of `s` from position `i` on, under the header `sec`, or the
/// position of the first violation of the grammar.
pub open spec fn parse_from(s: Seq<u8>, i: int, sec: Option<(Seq<u8>, Option<Seq<u8>>)>) -> Result<Seq<EntryView>, int>
    decreases s.len() - i,
{
    if i >= s.len() {
        Ok(Seq::empty())
    } else {
        let c = s[i];
        if c == NEWLINE || is_blank(c) {
            parse_from(s, i + 1, sec)
        } else if c == HASH || c == SEMICOLON {
            let e = line_end(s, i);
            if i < e <= s.len() { parse_from(s, e, sec) } else { Err(i) }
        } else if c == OPEN_BRACKET {
            match header(s, i + 1) {
                Err(p) => Err(p),
                Ok((name, sub, e)) => if i < e <= s.len() { parse_from(s, e, Some((name, sub))) } else { Err(i) },
            }
        } else if is_alpha(c) {
            match sec {
                None => Err(i),
                Some((name, sub)) => {
                    let k = name_end(s, i);
                    let j = blank_end(s, k);
                    let key = s.subrange(i, k);
                    if j >= s.len() || s[j] == NEWLINE || s[j] == HASH || s[j] == SEMICOLON {
                        if i < j <= s.len() {
                            prepend_entries(
                                seq![EntryView { section: name, subsection: sub, key: key, value: Seq::empty() }],
                                parse_from(s, j, sec),
                            )
                        } else {
                            Err(i)
                        }
                    } else if s[j] == EQUALS {
                        match value_scan(s, j + 1, false, Seq::empty(), Seq::empty()) {
                            Err(p) => Err(p),
                            Ok((v, e)) => if i < e <= s.len() {
                                prepend_entries(
                                    seq![EntryView { section: name, subsection: sub, key: key, value: v }],
                                    parse_from(s, e, sec),
                                )
                            } else {
                                Err(i)
                            },
                        }
                    } else {
                        Err(j)
                    }
                },
            }
        } else {
            Err(i)
        }
    }
}

/// The entries of a whole file.
pub open spec fn parse_spec(s: Seq<u8>) -> Result<Seq<EntryView>, int> {
    parse_from(s, 0, None)
}

fn scan_line_end(s: &[u8], i: usize) -> (r: usize)
    requires
        i <= s.len(),
    ensures
        r as int == line_end(s@, i as int),
        i <= r <= s.len(),
{
    let mut j = i;
    while j < s.len() && s[j] != NEWLINE
        invariant
            i <= j <= s.len(),
            line_end(s@, i as int) == line_end(s@, j as int),
        decreases s.len() - j,
    {
        j = j + 1;
    }
    j
}

fn scan_name_end(s: &[u8], i: usize) -> (r: usize)
    requires
        i <= s.len(),
    ensures
        r as int == name_end(s@, i as int),
        i <= r <= s.len(),
{
    let mut j = i;
    while j < s.len() && ((65u8 <= s[j] && s[j] <= 90u8) || (97u8 <= s[j] && s[j] <= 122u8) || (48u8 <= s[j] && s[j] <= 57u8) || s[j] == DASH)
        invariant
            i <= j <= s.len(),
            name_end(s@, i as int) == name_end(s@, j as int),
        decreases s.len() - j,
    {
        j = j + 1;
    }
    j
}

fn scan_dotted_end(s: &[u8], i: usize) -> (r: usize)
    requires
        i <= s.len(),
    ensures
        r as int == dotted_end(s@, i as int),
        i <= r <= s.len(),
{
    let mut j = i;
    while j < s.len() && ((65u8 <= s[j] && s[j] <= 90u8) || (97u8 <= s[j] && s[j] <= 122u8) || (48u8 <= s[j] && s[j] <= 57u8) || s[j] == DASH || s[j] == DOT)
        invariant
            i <= j <= s.len(),
            dotted_end(s@, i as int) == dotted_end(s@, j as int),
        decreases s.len() - j,
    {
        j = j + 1;
    }
    j
}

fn scan_blank_end(s: &[u8], i: usize) -> (r: usize)
    requires
        i <= s.len(),
    ensures
        r as int == blank_end(s@, i as int),
        i <= r <= s.len(),
{
    let mut j = i;
    while j < s.len() && (s[j] == SPACE || s[j] == TAB || s[j] == CR)
        invariant
            i <= j <= s.len(),
            blank_end(s@, i as int) == blank_end(s@, j as int),
        decreases s.len() - j,
    {
        j = j + 1;
    }
    j
}

fn unescape_byte(n: u8) -> (r: Option<u8>)
    ensures
        r == unescape(n),
{
    if n == 110u8 {
        Some(NEWLINE)
    } else if n == 116u8 {
        Some(TAB)
    } else if n == 98u8 {
        Some(8u8)
    } else if n == BACKSLASH || n == QUOTE {
        Some(n)
    } else {
        None
    }
}

fn scan_quoted_name(s: &[u8], i: usize) -> (r: Result<(Vec<u8>, usize), usize>)
    requires
        i <= s.len(),
    ensures
        match (r, quoted_name(s@, i as int, Seq::empty())) {
            (Ok((v, e)), Ok((sv, se))) => v@ == sv && e as int == se && e <= s.len(),
            (Err(p), Err(sp)) => p as int == sp,
            _ => false,
        },
{
    let mut j = i;
    let mut acc: Vec<u8> = Vec::new();
    loop
        invariant
            i <= j <= s.len(),
            quoted_name(s@, i as int, Seq::empty()) == quoted_name(s@, j as int, acc@),
        decreases s.len() - j,
    {
        if j >= s.len() {
            return Err(j);
        }
        let c = s[j];
        if c == QUOTE {
            return Ok((acc, j + 1));
        } else if c == NEWLINE {
            return Err(j);
        } else if c == BACKSLASH {
            if j + 1 < s.len() && s[j + 1] != NEWLINE {
                acc.push(s[j + 1]);
                j = j + 2;
            } else {
                return Err(j);
            }
        } else {
            acc.push(c);
            j = j + 1;
        }
    }
}

fn parse_header(s: &[u8], i: usize) -> (r: Result<(Vec<u8>, Option<Vec<u8>>, usize), usize>)
    requires
        i <= s.len(),
    ensures
        match (r, header(s@, i as int)) {
            (Ok((n, sub, e)), Ok((sn, ssub, se))) => n@ == sn && opt_view(sub) == ssub && e as int == se && e <= s.len(),
            (Err(p), Err(sp)) => p as int == sp,
            _ => false,
        },
{
    let n = scan_name_end(s, i);
    if n == i || n >= s.len() {
        return Err(n);
    }
    let name = copy_bytes(&s[i..n]);
    assert(name@ == s@.subrange(i as int, n as int));
    if s[n] == CLOSE_BRACKET {
        Ok((name, None, n + 1))
    } else if s[n] == DOT {
        let m = scan_dotted_end(s, n + 1);
        if m == n + 1 || m >= s.len() || s[m] != CLOSE_BRACKET {
            Err(m)
        } else {
            let sub = copy_bytes(&s[n + 1..m]);
            Ok((name, Some(sub), m + 1))
        }
    } else if s[n] == SPACE || s[n] == TAB || s[n] == CR {
        let k = scan_blank_end(s, n);
        if k >= s.len() || s[k] != QUOTE {
            Err(k)
        } else {
            match scan_quoted_name(s, k + 1) {
                Err(p) => Err(p),
                Ok((sub, e)) => {
                    if e >= s.len() || s[e] != CLOSE_BRACKET {
                        Err(e)
                    } else {
                        Ok((name, Some(sub), e + 1))
                    }
                },
            }
        }
    } else {
        Err(n)
    }
}

fn scan_value(s: &[u8], i: usize) -> (r: Result<(Vec<u8>, usize), usize>)
    requires
        i <= s.len(),
    ensures
        match (r, value_scan(s@, i as int, false, Seq::empty(), Seq::empty())) {
            (Ok((v, e)), Ok((sv, se))) => v@ == sv && e as int == se && e <= s.len(),
            (Err(p), Err(sp)) => p as int == sp,
            _ => false,
        },
{
    let mut j = i;
    let mut quoted = false;
    let mut acc: Vec<u8> = Vec::new();
    let mut pending: Vec<u8> = Vec::new();
    loop
        invariant
            i <= j <= s.len(),
            value_scan(s@, i as int, false, Seq::empty(), Seq::empty())
                == value_scan(s@, j as int, quoted, acc@, pending@),
        decreases s.len() - j,
    {
        if j >= s.len() {
            if quoted {
                return Err(j);
            } else {
                return Ok((acc, j));
            }
        }
        let c = s[j];
        if c == NEWLINE {
            if quoted {
                return Err(j);
            } else {
                return Ok((acc, j));
            }
        } else if c == BACKSLASH {
            if j + 1 >= s.len() {
                return Err(j);
            } else if s[j + 1] == NEWLINE {
                j = j + 2;
            } else {
                match unescape_byte(s[j + 1]) {
                    Some(u) => {
                        let ghost before = acc@ + pending@;
                        append_bytes(&mut acc, &pending);
                        acc.push(u);
                        pending.clear();
                        assert(acc@ =~= before + seq![u]);
                        j = j + 2;
                    },
                    None => {
                        return Err(j);
                    },
                }
            }
        } else if c == QUOTE {
            append_bytes(&mut acc, &pending);
            pending.clear();
            quoted = !quoted;
            j = j + 1;
        } else if !quoted && (c == HASH || c == SEMICOLON) {
            return Ok((acc, j));
        } else if (c == SPACE || c == TAB || c == CR) && !quoted {
            if acc.len() != 0 {
                pending.push(c);
            }
            j = j + 1;
        } else {
            let ghost before = acc@ + pending@;
            append_bytes(&mut acc, &pending);
            acc.push(c);
            pending.clear();
            assert(acc@ =~= before + seq![c]);
            j = j + 1;
        }
    }
}

proof fn lemma_prepend_one(xs: Seq<EntryView>, e: EntryView, r: Result<Seq<EntryView>, int>)
    ensures
        prepend_entries(xs, prepend_entries(seq![e], r)) == prepend_entries(xs.push(e), r),
{
    match r {
        Ok(rest) => {
            assert(xs + (seq![e] + rest) =~= xs.push(e) + rest);
        },
        Err(_) => {},
    }
}

fn copy_name(sec: &Option<(Vec<u8>, Option<Vec<u8>>)>) -> (r: (Vec<u8>, Option<Vec<u8>>))
    requires
        sec.is_some(),
    ensures
        r.0@ == sec.unwrap().0@,
        opt_view(r.1) == opt_view(sec.unwrap().1),
{
    match sec {
        Some((name, sub)) => {
            let sub_copy = match sub {
                Some(v) => Some(copy_bytes(v.as_slice())),
                None => None,
            };
            (copy_bytes(name.as_slice()), sub_copy)
        },
        None => {
            (Vec::new(), None)
        },
    }
}

pub open spec fn header_view(sec: Option<(Vec<u8>, Option<Vec<u8>>)>) -> Option<(Seq<u8>, Option<Seq<u8>>)> {
    match sec {
        Some((name, sub)) => Some((name@, opt_view(sub))),
        None => None,
    }
}

/// Parses one config file into its entries, in file order.
pub fn parse_config(s: &[u8]) -> (r: Result<Vec<ParsedEntry>, ParseError>)
    ensures
        match (r, parse_spec(s@)) {
            (Ok(es), Ok(ses)) => entry_views(es@) == ses,
            (Err(e), Err(p)) => e.position as int == p,
            _ => false,
        },
{
    let mut out: Vec<ParsedEntry> = Vec::new();
    let mut sec: Option<(Vec<u8>, Option<Vec<u8>>)> = None;
    let mut i: usize = 0;
    loop
        invariant
            i <= s.len(),
            parse_spec(s@) == prepend_entries(entry_views(out@), parse_from(s@, i as int, header_view(sec))),
        decreases s.len() - i,
    {
        if i >= s.len() {
            assert(entry_views(out@) + Seq::empty() =~= entry_views(out@));
            return Ok(out);
        }
        let c = s[i];
        if c == NEWLINE || c == SPACE || c == TAB || c == CR {
            i = i + 1;
        } else if c == HASH || c == SEMICOLON {
            let e = scan_line_end(s, i);
            if i < e && e <= s.len() {
                i = e;
            } else {
                return Err(ParseError { position: i });
            }
        } else if c == OPEN_BRACKET {
            match parse_header(s, i + 1) {
                Err(p) => {
                    return Err(ParseError { position: p });
                },
                Ok((name, sub, e)) => {
                    if i < e && e <= s.len() {
                        sec = Some((name, sub));
                        i = e;
                    } else {
                        return Err(ParseError { position: i });
                    }
                },
            }
        } else if (65u8 <= c && c <= 90u8) || (97u8 <= c && c <= 122u8) {
            if sec.is_none() {
                return Err(ParseError { position: i });
            }
            let k = scan_name_end(s, i);
            let j = scan_blank_end(s, k);
            let key = copy_bytes(&s[i..k]);
            let (name, sub) = copy_name(&sec);
            let ghost key_view = s@.subrange(i as int, k as int);
            assert(key@ == key_view);
            if j >= s.len() || s[j] == NEWLINE || s[j] == HASH || s[j] == SEMICOLON {
                if i < j && j <= s.len() {
                    let entry = ParsedEntry { section: name, subsection: sub, key, value: Vec::new() };
                    proof {
                        lemma_prepend_one(entry_views(out@), entry@, parse_from(s@, j as int, header_view(sec)));
                        assert(entry_views(out@.push(entry)) =~= entry_views(out@).push(entry@));
                    }
                    out.push(entry);
                    i = j;
                } else {
                    return Err(ParseError { position: i });
                }
            } else if s[j] == EQUALS {
                match scan_value(s, j + 1) {
                    Err(p) => {
                        return Err(ParseError { position: p });
                    },
                    Ok((v, e)) => {
                        if i < e && e <= s.len() {
                            let entry = ParsedEntry { section: name, subsection: sub, key, value: v };
                            proof {
                                lemma_prepend_one(entry_views(out@), entry@, parse_from(s@, e as int, header_view(sec)));
                                assert(entry_views(out@.push(entry)) =~= entry_views(out@).push(entry@));
                            }
                            out.push(entry);
                            i = e;
                        } else {
                            return Err(ParseError { position: i });
                        }
                    },
                }
            } else {
                return Err(ParseError { position: j });
            }
        } else {
            return Err(ParseError { position: i });
        }
    }
}

} // verus!
