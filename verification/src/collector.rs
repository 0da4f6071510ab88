//! Collectors: what every image board has in common (its API address and
//! how a page of it is asked for), and the core that decides which boards a
//! run searches.

use vstd::prelude::*;
use crate::text::{decimal, push_decimal, copy_str, str_eq, contains_char, views};
use crate::item::{KyaniteItem, is_new_item, clone_strings};
use crate::params::KyaniteParams;
use crate::manifest::KyaniteManifest;
use crate::stats::StatsContainer;
use crate::collectors::danbooru::DanbooruCollector;
use crate::collectors::e621::E621Collector;
use crate::collectors::gelbooru::GelbooruCollector;
use crate::collectors::rule34::Rule34Collector;
use crate::collectors::yandere::YandereCollector;

verus! {

/// What joins an API address and its query: `&` when the address already
/// holds a `?`, else `?`.
pub open spec fn marker_spec(api_base: Seq<char>) -> Seq<char> {
    if api_base.contains('?') {
        "&"@
    } else {
        "?"@
    }
}

/// The address of one page of results:
/// `<base><marker><tags argument>=<tags>&<page argument>=<page>`.
pub open spec fn api_url_spec(
    base: Seq<char>,
    marker: Seq<char>,
    tags_argument: Seq<char>,
    tags: Seq<char>,
    page_argument: Seq<char>,
    page: nat,
) -> Seq<char> {
    base + marker + tags_argument + "="@ + tags + "&"@ + page_argument + "="@ + decimal(page)
}

/// An image board and how its API is asked for pages of posts.
pub trait KyaniteCollector {
    /// The board's identifier.
    spec fn spec_id(&self) -> Seq<char>;

    /// The board's display name.
    spec fn spec_name(&self) -> Seq<char>;

    /// The address of the board's post API.
    spec fn spec_api_base(&self) -> Seq<char>;

    /// The address of the board's site.
    spec fn spec_site_base(&self) -> Seq<char>;

    /// The query argument that carries the tags.
    spec fn spec_tags_argument(&self) -> Seq<char>;

    /// The query argument that carries the page number.
    spec fn spec_page_argument(&self) -> Seq<char>;

    /// The number of the first page.
    spec fn spec_first_page(&self) -> u64;

    /// The board's identifier.
    fn id(&self) -> (r: &'static str)
        ensures
            r@ == self.spec_id(),
    ;

    /// The board's display name.
    fn name(&self) -> (r: &'static str)
        ensures
            r@ == self.spec_name(),
    ;

    /// The address of the board's post API.
    fn api_base(&self) -> (r: &'static str)
        ensures
            r@ == self.spec_api_base(),
    ;

    /// The address of the board's site.
    fn site_base(&self) -> (r: &'static str)
        ensures
            r@ == self.spec_site_base(),
    ;

    /// The query argument that carries the tags.
    fn tags_argument(&self) -> (r: &'static str)
        ensures
            r@ == self.spec_tags_argument(),
    ;

    /// The query argument that carries the page number.
    fn page_argument(&self) -> (r: &'static str)
        ensures
            r@ == self.spec_page_argument(),
    ;

    /// The number of the first page.
    fn first_page(&self) -> (r: u64)
        ensures
            r == self.spec_first_page(),
    ;

    /// What joins the API address and its query.
    fn starting_marker(&self) -> (r: &'static str)
        ensures
            r@ == marker_spec(self.spec_api_base()),
    {
        if contains_char(self.api_base(), '?') {
            "&"
        } else {
            "?"
        }
    }

    /// The address of page `page` of the posts with `tags` (already joined).
    fn api_by_page(&self, tags: String, page: u64) -> (r: String)
        ensures
            r@ == api_url_spec(
                self.spec_api_base(),
                marker_spec(self.spec_api_base()),
                self.spec_tags_argument(),
                tags@,
                self.spec_page_argument(),
                page as nat,
            ),
    {
        let mut api = copy_str(self.api_base());
        api.append(self.starting_marker());
        api.append(self.tags_argument());
        api.append("=");
        api.append(tags.as_str());
        api.append("&");
        api.append(self.page_argument());
        api.append("=");
        push_decimal(&mut api, page);
        api
    }
}

/// Whether `after` is `before` followed by a new item for each of `urls`,
/// in order, found with `tags` in collection `coll`.
pub open spec fn items_added(
    before: Seq<KyaniteItem>,
    after: Seq<KyaniteItem>,
    urls: Seq<Seq<char>>,
    tags: Seq<Seq<char>>,
    coll: Seq<char>,
) -> bool {
    &&& after.len() == before.len() + urls.len()
    &&& after.take(before.len() as int) == before
    &&& forall|k: int|
        0 <= k < urls.len() ==> is_new_item(#[trigger] after[before.len() + k], urls[k], tags, coll)
}

/// The page after `page`, unless the page just read held no posts.
pub open spec fn next_page(page: u64, post_count: nat) -> Option<u64> {
    if post_count == 0 {
        None
    } else {
        Some((page + 1) as u64)
    }
}

/// Adds to `items` a new item for each of `urls`, found with `tags` in
/// collection `coll`.
pub fn push_items(items: &mut Vec<KyaniteItem>, urls: Vec<String>, tags: &Vec<String>, coll: &str)
    ensures
        items_added(old(items)@, final(items)@, views(urls@), views(tags@), coll@),
{
    let ghost start = items@;
    let ghost orig = urls@;
    let ghost all = views(urls@);
    let n = urls.len();
    let mut urls = urls;
    let mut i: usize = 0;
    while i < n
        invariant
            n == all.len(),
            i <= n,
            all == views(orig),
            urls@ == orig.skip(i as int),
            items@.len() == start.len() + i,
            items@.take(start.len() as int) == start,
            forall|k: int|
                0 <= k < i ==> is_new_item(#[trigger] items@[start.len() + k], all[k], views(tags@), coll@),
        decreases n - i,
    {
        assert(urls@[0] == orig[i as int]);
        let url = urls.remove(0);
        assert(urls@ =~= orig.skip(i + 1));
        let item = KyaniteItem::new(url, clone_strings(tags), copy_str(coll));
        let ghost before = items@;
        items.push(item);
        assert(items@.take(start.len() as int) =~= before.take(start.len() as int));
        assert forall|k: int| 0 <= k < i + 1 implies is_new_item(#[trigger] items@[start.len() + k], all[k], views(tags@), coll@) by {
            if k < i {
                assert(items@[start.len() + k] == before[start.len() + k]);
            }
        }
        i = i + 1;
    }
}

/// The boards a run can search.
#[derive(Clone, Copy, Debug)]
pub enum CollectorKind {
    Danbooru,
    E621,
    Gelbooru,
    Rule34,
    Yandere,
}

/// The identifier of a board.
pub open spec fn kind_id(kind: CollectorKind) -> Seq<char> {
    match kind {
        CollectorKind::Danbooru => DanbooruCollector.spec_id(),
        CollectorKind::E621 => E621Collector.spec_id(),
        CollectorKind::Gelbooru => GelbooruCollector.spec_id(),
        CollectorKind::Rule34 => Rule34Collector.spec_id(),
        CollectorKind::Yandere => YandereCollector.spec_id(),
    }
}

/// The display name of a board.
pub open spec fn kind_name(kind: CollectorKind) -> Seq<char> {
    match kind {
        CollectorKind::Danbooru => DanbooruCollector.spec_name(),
        CollectorKind::E621 => E621Collector.spec_name(),
        CollectorKind::Gelbooru => GelbooruCollector.spec_name(),
        CollectorKind::Rule34 => Rule34Collector.spec_name(),
        CollectorKind::Yandere => YandereCollector.spec_name(),
    }
}

impl CollectorKind {
    /// The identifier of the board.
    pub fn id(&self) -> (r: &'static str)
        ensures
            r@ == kind_id(*self),
    {
        match self {
            CollectorKind::Danbooru => DanbooruCollector.id(),
            CollectorKind::E621 => E621Collector.id(),
            CollectorKind::Gelbooru => GelbooruCollector.id(),
            CollectorKind::Rule34 => Rule34Collector.id(),
            CollectorKind::Yandere => YandereCollector.id(),
        }
    }

    /// The display name of the board.
    pub fn name(&self) -> (r: &'static str)
        ensures
            r@ == kind_name(*self),
    {
        match self {
            CollectorKind::Danbooru => DanbooruCollector.name(),
            CollectorKind::E621 => E621Collector.name(),
            CollectorKind::Gelbooru => GelbooruCollector.name(),
            CollectorKind::Rule34 => Rule34Collector.name(),
            CollectorKind::Yandere => YandereCollector.name(),
        }
    }
}

/// Whether a source named on the command line selects a board: by its
/// identifier, by its name, or as `all`.
pub open spec fn selects(source: Seq<char>, kind: CollectorKind) -> bool {
    source == kind_id(kind) || source == kind_name(kind) || source == "all"@
}

/// One run of `kind` for every source that selects it.
pub open spec fn jobs_for(kind: CollectorKind, sources: Seq<Seq<char>>) -> Seq<CollectorKind>
    decreases sources.len(),
{
    if sources.len() == 0 {
        Seq::empty()
    } else {
        jobs_for(kind, sources.drop_last()) + if selects(sources.last(), kind) {
            seq![kind]
        } else {
            Seq::empty()
        }
    }
}

/// The runs of the boards of `roster`, board by board, in order.
pub open spec fn jobs_spec(roster: Seq<CollectorKind>, sources: Seq<Seq<char>>) -> Seq<CollectorKind>
    decreases roster.len(),
{
    if roster.len() == 0 {
        Seq::empty()
    } else {
        jobs_spec(roster.drop_last(), sources) + jobs_for(roster.last(), sources)
    }
}

/// The boards a run knows, in the order they are searched.
pub open spec fn roster_spec() -> Seq<CollectorKind> {
    seq![CollectorKind::E621, CollectorKind::Gelbooru, CollectorKind::Rule34, CollectorKind::Yandere]
}

/// The state of a run: its statistics, its settings, the manifest of files
/// on disk, and the boards it knows.
pub struct CollectorCore {
    pub stats: StatsContainer,
    pub params: KyaniteParams,
    pub manifest: KyaniteManifest,
    pub collectors: Vec<CollectorKind>,
}

impl CollectorCore {
    /// The boards the run knows, in the order they are searched.
    pub open spec fn roster(&self) -> Seq<CollectorKind> {
        self.collectors@
    }

    /// A run with these settings and this manifest, no statistics yet, that
    /// knows E621, Gelbooru, Rule34 and yande.re.
    pub fn new(params: KyaniteParams, manifest: KyaniteManifest) -> (core: Self)
        ensures
            core.params == params,
            core.manifest == manifest,
            core.stats == StatsContainer::new_spec(),
            core.roster() == roster_spec(),
    {
        let stats = StatsContainer::new();
        let collectors = vec![
            CollectorKind::E621,
            CollectorKind::Gelbooru,
            CollectorKind::Rule34,
            CollectorKind::Yandere,
        ];
        CollectorCore { stats, params, manifest, collectors }
    }

    /// The board runs of this run: for each board it knows, in order, one
    /// run for each source that selects it.
    pub fn jobs(&self) -> (r: Vec<CollectorKind>)
        ensures
            r@ == jobs_spec(self.roster(), views(self.params.sources@)),
    {
        let ghost sources = views(self.params.sources@);
        let mut r: Vec<CollectorKind> = Vec::new();
        let n = self.collectors.len();
        let m = self.params.sources.len();
        let mut i: usize = 0;
        while i < n
            invariant
                n == self.collectors@.len(),
                m == sources.len(),
                sources == views(self.params.sources@),
                i <= n,
                r@ == jobs_spec(self.collectors@.take(i as int), sources),
            decreases n - i,
        {
            let kind = self.collectors[i];
            let id = kind.id();
            let name = kind.name();
            let ghost before = r@;
            let mut j: usize = 0;
            while j < m
                invariant
                    m == sources.len(),
                    sources == views(self.params.sources@),
                    j <= m,
                    id@ == kind_id(kind),
                    name@ == kind_name(kind),
                    r@ == before + jobs_for(kind, sources.take(j as int)),
                decreases m - j,
            {
                let source = self.params.sources[j].as_str();
                assert(sources.take(j + 1).drop_last() =~= sources.take(j as int));
                assert(sources.take(j + 1).last() == source@);
                if str_eq(source, id) || str_eq(source, name) || str_eq(source, "all") {
                    r.push(kind);
                    assert(r@ =~= before + jobs_for(kind, sources.take(j + 1)));
                } else {
                    assert(r@ =~= before + jobs_for(kind, sources.take(j + 1)));
                }
                j = j + 1;
            }
            assert(sources.take(m as int) =~= sources);
            assert(self.collectors@.take(i + 1).drop_last() =~= self.collectors@.take(i as int));
            i = i + 1;
        }
        assert(self.collectors@.take(n as int) =~= self.collectors@);
        r
    }
}

/// A run whose only source is `all` searches every board it knows, once
/// each, in order.
pub proof fn law_all_selects_every_board(roster: Seq<CollectorKind>)
    ensures
        jobs_spec(roster, seq!["all"@]) == roster,
    decreases roster.len(),
{
    if roster.len() > 0 {
        law_all_selects_every_board(roster.drop_last());
        let sources = seq!["all"@];
        assert(sources.drop_last() =~= Seq::<Seq<char>>::empty());
        assert(sources.last() == "all"@);
        assert(selects(sources.last(), roster.last()));
        assert(jobs_for(roster.last(), sources.drop_last()) =~= Seq::<CollectorKind>::empty());
        assert(jobs_for(roster.last(), sources) =~= seq![roster.last()]);
        assert(roster.drop_last().push(roster.last()) =~= roster);
    } else {
        assert(roster =~= Seq::<CollectorKind>::empty());
    }
}

/// A run with no sources searches nothing.
pub proof fn law_no_source_selects_nothing(roster: Seq<CollectorKind>)
    ensures
        jobs_spec(roster, Seq::empty()) == Seq::<CollectorKind>::empty(),
    decreases roster.len(),
{
    if roster.len() > 0 {
        law_no_source_selects_nothing(roster.drop_last());
        assert(jobs_for(roster.last(), Seq::empty()) =~= Seq::<CollectorKind>::empty());
        assert(jobs_spec(roster, Seq::empty()) =~= Seq::<CollectorKind>::empty());
    }
}

} // verus!
