//! What holds of every load and every lookup.
use vstd::prelude::*;
use crate::bytes::lower;
use crate::load::{
    active_include, expand, in_include_section, own_entries, failed, include_word, join, load_all, load_seed, lookup, nested_of, path_word, stored,
    Error, FileView, IoErrorKind, Options, ParserOrIoError, StopView,
};
use crate::parse::{opt_view, EntryView};
use crate::paths::resolve_include;
use crate::store::{last_value, values_of, StoredView};

verus! {

/// A single-value lookup gives the last of the values that the multi-value
/// lookup gives, and nothing when there are none.
pub proof fn last_wins(es: Seq<StoredView>, section: Seq<u8>, subsection: Option<Seq<u8>>, key: Seq<u8>)
    ensures
        values_of(es, section, subsection, key).len() > 0 ==> last_value(es, section, subsection, key) == Some(
            values_of(es, section, subsection, key).last(),
        ),
        values_of(es, section, subsection, key).len() == 0 ==> last_value(es, section, subsection, key) is None,
{
}

/// Section and key names are looked up without regard to ASCII case.
pub proof fn names_ignore_case(
    es: Seq<StoredView>,
    section_a: Seq<u8>,
    section_b: Seq<u8>,
    subsection: Option<Seq<u8>>,
    key_a: Seq<u8>,
    key_b: Seq<u8>,
)
    requires
        lower(section_a) == lower(section_b),
        lower(key_a) == lower(key_b),
    ensures
        values_of(es, section_a, subsection, key_a) == values_of(es, section_b, subsection, key_b),
        last_value(es, section_a, subsection, key_a) == last_value(es, section_b, subsection, key_b),
    decreases es.len(),
{
    if es.len() > 0 {
        names_ignore_case(es.drop_last(), section_a, section_b, subsection, key_a, key_b);
    }
}

/// Subsection names are compared exactly: entries stored under one
/// subsection never answer a lookup of another, even one that differs only in
/// case.
pub proof fn subsections_keep_case(es: Seq<StoredView>, section: Seq<u8>, stored_sub: Seq<u8>, asked: Seq<u8>, key: Seq<u8>)
    requires
        stored_sub != asked,
        forall|i: int| 0 <= i < es.len() ==> #[trigger] es[i].subsection == Some(stored_sub),
    ensures
        values_of(es, section, Some(asked), key).len() == 0,
    decreases es.len(),
{
    if es.len() > 0 {
        assert(es.last().subsection == Some(stored_sub));
        subsections_keep_case(es.drop_last(), section, stored_sub, asked, key);
    }
}

pub open spec fn depths_within(s: Seq<StoredView>, max_depth: int) -> bool {
    forall|i: int| 0 <= i < s.len() ==> 0 <= #[trigger] s[i].depth <= max_depth
}

proof fn lemma_join_depths(a: crate::load::Outcome, b: crate::load::Outcome, max_depth: int)
    requires
        a is Ok ==> depths_within(a->Ok_0, max_depth),
        b is Ok ==> depths_within(b->Ok_0, max_depth),
    ensures
        join(a, b) is Ok ==> depths_within(join(a, b)->Ok_0, max_depth),
{
    if join(a, b) is Ok {
        let x = a->Ok_0;
        let y = b->Ok_0;
        assert forall|i: int| 0 <= i < (x + y).len() implies 0 <= #[trigger] (x + y)[i].depth <= max_depth by {
            if i < x.len() {
                assert((x + y)[i] == x[i]);
            } else {
                assert((x + y)[i] == y[i - x.len()]);
            }
        }
    }
}

proof fn lemma_nested_depths(files: Seq<(Seq<u8>, FileView)>, opts: Options, path: Seq<u8>, e: EntryView, depth: int)
    requires
        0 <= depth <= opts.max_depth,
    ensures
        nested_of(files, opts, path, e, depth) is Ok ==> depths_within(
            nested_of(files, opts, path, e, depth)->Ok_0,
            opts.max_depth as int,
        ),
    decreases opts.max_depth - depth, 0int,
{
    if active_include(e, path, opts) && depth + 1 <= opts.max_depth {
        match resolve_include(e.value, path, opt_view(opts.home_dir)) {
            None => {},
            Some(t) => match lookup(files, t) {
                Some(FileView::Contents(c)) => match crate::parse::parse_spec(c) {
                    Ok(inner) => {
                        lemma_expand_depths(files, opts, t, inner, depth + 1);
                    },
                    Err(_) => {},
                },
                _ => {},
            },
        }
    }
}

proof fn lemma_expand_depths(files: Seq<(Seq<u8>, FileView)>, opts: Options, path: Seq<u8>, es: Seq<EntryView>, depth: int)
    requires
        0 <= depth <= opts.max_depth,
    ensures
        expand(files, opts, path, es, depth) is Ok ==> depths_within(
            expand(files, opts, path, es, depth)->Ok_0,
            opts.max_depth as int,
        ),
    decreases opts.max_depth - depth, es.len() as int,
{
    if es.len() > 0 {
        let here: crate::load::Outcome = Ok(own_entries(es[0], path, depth));
        lemma_nested_depths(files, opts, path, es[0], depth);
        assert(depths_within(own_entries(es[0], path, depth), opts.max_depth as int));
        lemma_expand_depths(files, opts, path, es.drop_first(), depth);
        lemma_join_depths(here, nested_of(files, opts, path, es[0], depth), opts.max_depth as int);
        lemma_join_depths(
            join(here, nested_of(files, opts, path, es[0], depth)),
            expand(files, opts, path, es.drop_first(), depth),
            opts.max_depth as int,
        );
    }
}

/// Every stored entry was read at most `max_depth` include edges away from
/// its seed.
pub proof fn depth_bound(files: Seq<(Seq<u8>, FileView)>, opts: Options, seeds: Seq<Seq<u8>>)
    ensures
        load_all(files, opts, seeds) is Ok ==> depths_within(load_all(files, opts, seeds)->Ok_0, opts.max_depth as int),
    decreases seeds.len(),
{
    if seeds.len() > 0 {
        depth_bound(files, opts, seeds.drop_first());
        let first = load_seed(files, opts, seeds[0]);
        match lookup(files, seeds[0]) {
            Some(FileView::Contents(c)) => match crate::parse::parse_spec(c) {
                Ok(es) => {
                    lemma_expand_depths(files, opts, seeds[0], es, 0);
                },
                Err(_) => {},
            },
            _ => {},
        }
        lemma_join_depths(first, load_all(files, opts, seeds.drop_first()), opts.max_depth as int);
    }
}

proof fn lemma_join_assoc(a: crate::load::Outcome, b: crate::load::Outcome, c: crate::load::Outcome)
    ensures
        join(join(a, b), c) == join(a, join(b, c)),
{
    match (a, b, c) {
        (Ok(x), Ok(y), Ok(z)) => {
            assert((x + y) + z =~= x + (y + z));
        },
        _ => {},
    }
}

proof fn lemma_join_empty(a: crate::load::Outcome)
    ensures
        join(Ok(Seq::empty()), a) == a,
        join(a, Ok(Seq::empty())) == a,
{
    match a {
        Ok(x) => {
            assert(Seq::<StoredView>::empty() + x =~= x);
            assert(x + Seq::<StoredView>::empty() =~= x);
        },
        _ => {},
    }
}

/// The seeds' entries come in seed order: loading `a` then `b` gives what
/// loading `a` gives followed by what loading `b` gives.
pub proof fn seeds_in_order(files: Seq<(Seq<u8>, FileView)>, opts: Options, a: Seq<Seq<u8>>, b: Seq<Seq<u8>>)
    ensures
        load_all(files, opts, a + b) == join(load_all(files, opts, a), load_all(files, opts, b)),
    decreases a.len(),
{
    if a.len() == 0 {
        assert(a + b =~= b);
        lemma_join_empty(load_all(files, opts, b));
    } else {
        assert((a + b).drop_first() =~= a.drop_first() + b);
        assert((a + b)[0] == a[0]);
        seeds_in_order(files, opts, a.drop_first(), b);
        lemma_join_assoc(
            load_seed(files, opts, a[0]),
            load_all(files, opts, a.drop_first()),
            load_all(files, opts, b),
        );
    }
}

/// A file's entries come in file order, each followed in place by what it
/// includes: expanding `x` then `y` gives what `x` expands to followed by what
/// `y` expands to.
pub proof fn entries_in_order(
    files: Seq<(Seq<u8>, FileView)>,
    opts: Options,
    path: Seq<u8>,
    x: Seq<EntryView>,
    y: Seq<EntryView>,
    depth: int,
)
    ensures
        expand(files, opts, path, x + y, depth) == join(expand(files, opts, path, x, depth), expand(files, opts, path, y, depth)),
    decreases x.len(),
{
    if x.len() == 0 {
        assert(x + y =~= y);
        lemma_join_empty(expand(files, opts, path, y, depth));
    } else {
        assert((x + y).drop_first() =~= x.drop_first() + y);
        assert((x + y)[0] == x[0]);
        entries_in_order(files, opts, path, x.drop_first(), y, depth);
        let head = join(Ok(own_entries(x[0], path, depth)), nested_of(files, opts, path, x[0], depth));
        lemma_join_assoc(head, expand(files, opts, path, x.drop_first(), depth), expand(files, opts, path, y, depth));
    }
}

/// A file without include sections contributes its own entries, in file
/// order.
pub proof fn plain_file_in_order(files: Seq<(Seq<u8>, FileView)>, opts: Options, path: Seq<u8>, es: Seq<EntryView>, depth: int)
    requires
        forall|i: int| 0 <= i < es.len() ==> !in_include_section(#[trigger] es[i]),
    ensures
        expand(files, opts, path, es, depth) == Ok::<Seq<StoredView>, StopView>(
            es.map_values(|e: EntryView| stored(e, path, depth)),
        ),
    decreases es.len(),
{
    if es.len() > 0 {
        assert(!in_include_section(es[0]));
        assert forall|i: int| 0 <= i < es.drop_first().len() implies !in_include_section(
            #[trigger] es.drop_first()[i],
        ) by {
            assert(es.drop_first()[i] == es[i + 1]);
        }
        plain_file_in_order(files, opts, path, es.drop_first(), depth);
        assert(nested_of(files, opts, path, es[0], depth) == Ok::<Seq<StoredView>, StopView>(Seq::empty()));
        assert(seq![stored(es[0], path, depth)] + Seq::<StoredView>::empty() =~= seq![stored(es[0], path, depth)]);
        assert(seq![stored(es[0], path, depth)] + es.drop_first().map_values(|e: EntryView| stored(e, path, depth))
            =~= es.map_values(|e: EntryView| stored(e, path, depth)));
    } else {
        assert(es.map_values(|e: EntryView| stored(e, path, depth)) =~= Seq::<StoredView>::empty());
    }
}

/// A `path` line in an `[include]` section whose target does not exist
/// changes nothing: the file loads as without the line. This holds where the
/// include is not past the depth limit, or where going past it is no error.
pub proof fn missing_include_tolerated(
    files: Seq<(Seq<u8>, FileView)>,
    opts: Options,
    path: Seq<u8>,
    x: Seq<EntryView>,
    e: EntryView,
    y: Seq<EntryView>,
    depth: int,
)
    requires
        lower(e.section) == include_word(),
        e.subsection is None,
        lower(e.key) == path_word(),
        depth + 1 <= opts.max_depth || !opts.error_on_max_depth_exceeded,
        match resolve_include(e.value, path, opt_view(opts.home_dir)) {
            None => true,
            Some(t) => lookup(files, t) == Some(FileView::NotFound),
        },
    ensures
        expand(files, opts, path, x + seq![e] + y, depth) == expand(files, opts, path, x + y, depth),
{
    entries_in_order(files, opts, path, x + seq![e], y, depth);
    entries_in_order(files, opts, path, x, seq![e], depth);
    entries_in_order(files, opts, path, x, y, depth);
    let one = seq![e];
    assert(one.drop_first() =~= Seq::<EntryView>::empty());
    assert(one[0] == e);
    assert(expand(files, opts, path, one.drop_first(), depth) == Ok::<Seq<StoredView>, StopView>(Seq::empty()));
    assert(nested_of(files, opts, path, e, depth) == Ok::<Seq<StoredView>, StopView>(Seq::empty()));
    assert(own_entries(e, path, depth) == Seq::<StoredView>::empty());
    lemma_join_empty(Ok(Seq::empty()));
    assert(expand(files, opts, path, one, depth) == Ok::<Seq<StoredView>, StopView>(Seq::empty()));
    lemma_join_empty(expand(files, opts, path, x, depth));
    lemma_join_assoc(
        expand(files, opts, path, x, depth),
        expand(files, opts, path, one, depth),
        expand(files, opts, path, y, depth),
    );
}

/// A seed that does not exist fails the load with a not-found error, once the
/// seeds before it have loaded.
pub proof fn missing_seed_fails(files: Seq<(Seq<u8>, FileView)>, opts: Options, seeds: Seq<Seq<u8>>, k: int)
    requires
        0 <= k < seeds.len(),
        lookup(files, seeds[k]) == Some(FileView::NotFound),
        forall|j: int| 0 <= j < k ==> #[trigger] load_seed(files, opts, seeds[j]) is Ok,
    ensures
        load_all(files, opts, seeds) == failed(Error::ParserOrIoError(ParserOrIoError::Io(IoErrorKind::NotFound))),
    decreases k,
{
    if k > 0 {
        assert forall|j: int| 0 <= j < k - 1 implies #[trigger] load_seed(files, opts, seeds.drop_first()[j]) is Ok by {
            assert(seeds.drop_first()[j] == seeds[j + 1]);
        }
        missing_seed_fails(files, opts, seeds.drop_first(), k - 1);
        assert(load_seed(files, opts, seeds[0]) is Ok);
    }
}

} // verus!
