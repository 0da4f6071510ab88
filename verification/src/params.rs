//! The settings of a run: which sources to search and for which tags.

use vstd::prelude::*;
use crate::text::{split, split_spec, trim, trim_spec, views};
use crate::order::{sort_by_keys, stably_sorted_by, stable_sort_by};
use crate::text::lex_le;
use crate::item::clone_strings;

verus! {

/// The pieces of a comma-separated list, each without surrounding white
/// space.
pub open spec fn list_spec(value: Seq<char>) -> Seq<Seq<char>> {
    split_spec(value, ',').map_values(|p: Seq<char>| trim_spec(p))
}

/// Strings are sorted by themselves.
pub open spec fn string_key() -> spec_fn(String) -> Seq<char> {
    |s: String| s@
}

/// The settings of a run.
#[derive(Clone, Debug)]
pub struct KyaniteParams {
    pub verbose: bool,
    pub debug: bool,
    pub sources: Vec<String>,
    pub tags: Vec<String>,
    pub insane: bool,
}

/// The pieces of the comma-separated list `value`, each trimmed.
pub fn parse_list(value: &str) -> (r: Vec<String>)
    ensures
        views(r@) == list_spec(value@),
{
    let pieces = split(value, ',');
    let ghost raw = views(pieces@);
    let mut clean: Vec<String> = Vec::new();
    let n = pieces.len();
    let mut i: usize = 0;
    while i < n
        invariant
            n == pieces@.len(),
            raw == views(pieces@),
            raw == split_spec(value@, ','),
            i <= n,
            views(clean@) == raw.take(i as int).map_values(|p: Seq<char>| trim_spec(p)),
        decreases n - i,
    {
        let piece = trim(pieces[i].as_str());
        assert(raw[i as int] == pieces@[i as int]@);
        let ghost before = views(clean@);
        clean.push(piece);
        assert(views(clean@) =~= before.push(piece@));
        assert(views(clean@) =~= raw.take(i + 1).map_values(|p: Seq<char>| trim_spec(p)));
        i = i + 1;
    }
    assert(raw.take(n as int) =~= raw);
    clean
}

impl KyaniteParams {
    /// The settings from the command line's values: the sources are the
    /// trimmed pieces of the comma-separated `sources` value, the tags those
    /// of the `tags` value, sorted; an absent value gives no pieces.
    pub fn new(verbose: bool, debug: bool, sources: Option<&str>, tags: Option<&str>, insane: bool) -> (p: Self)
        ensures
            p.verbose == verbose,
            p.debug == debug,
            p.insane == insane,
            views(p.sources@) == match sources {
                Some(s) => list_spec(s@),
                None => Seq::empty(),
            },
            match tags {
                Some(t) => exists|unsorted: Seq<String>|
                    views(unsorted) == list_spec(t@) && stably_sorted_by(p.tags@, unsorted, string_key()),
                None => p.tags@.len() == 0,
            },
            forall|i: int, j: int|
                0 <= i < j < p.tags@.len() ==> lex_le(#[trigger] p.tags@[i]@, #[trigger] p.tags@[j]@),
    {
        let source_list = match sources {
            Some(srcs) => parse_list(srcs),
            None => Vec::new(),
        };
        let tag_list = match tags {
            Some(t) => {
                let clean = parse_list(t);
                let keys = clone_strings(&clean);
                let ghost unsorted = clean@;
                let sorted = sort_by_keys(clean, keys, Ghost(string_key()));
                assert(views(unsorted) == list_spec(t@));
                proof {
                    law_tags_fully_sorted(sorted@, unsorted);
                }
                sorted
            },
            None => Vec::new(),
        };
        assert(views(Seq::<String>::empty()) =~= Seq::<Seq<char>>::empty());
        KyaniteParams { verbose, debug, sources: source_list, tags: tag_list, insane }
    }
}

/// Tags are sorted by the whole of each tag: sorting them yields the same
/// tags, each used once, in lexicographic order of the full strings.
pub proof fn law_tags_fully_sorted(tags: Seq<String>, unsorted: Seq<String>)
    requires
        stably_sorted_by(tags, unsorted, string_key()),
    ensures
        tags.len() == unsorted.len(),
        forall|i: int, j: int| 0 <= i < j < tags.len() ==> lex_le(#[trigger] tags[i]@, #[trigger] tags[j]@),
        forall|i: int| 0 <= i < tags.len() ==> #[trigger] unsorted.contains(tags[i]),
{
    let p = choose|p: Seq<int>| stable_sort_by(tags, unsorted, string_key(), p);
    assert forall|i: int, j: int| 0 <= i < j < tags.len() implies lex_le(#[trigger] tags[i]@, #[trigger] tags[j]@) by {
        assert(lex_le(string_key()(tags[i]), string_key()(tags[j])));
    }
    assert forall|i: int| 0 <= i < tags.len() implies #[trigger] unsorted.contains(tags[i]) by {
        assert(tags[i] == unsorted[p[i]]);
    }
}

} // verus!
