//! Danbooru.

use vstd::prelude::*;
use crate::collector::{KyaniteCollector, items_added, next_page, push_items};
use crate::item::KyaniteItem;
use crate::text::views;

verus! {

/// The Danbooru board.
#[derive(Clone, Copy, Debug)]
pub struct DanbooruCollector;

/// A post as Danbooru's API describes it.
#[derive(Clone, Debug)]
pub struct DanbooruPost {
    pub file_url: String,
    pub tag_string_general: String,
    pub md5: String,
}

/// Whether a post has both a file address and a digest.
pub open spec fn danbooru_valid(post: DanbooruPost) -> bool {
    !(post.file_url@.len() == 0 || post.md5@.len() == 0)
}

/// The file addresses of the valid posts, in order.
pub open spec fn danbooru_urls(posts: Seq<DanbooruPost>) -> Seq<Seq<char>>
    decreases posts.len(),
{
    if posts.len() == 0 {
        Seq::empty()
    } else {
        danbooru_urls(posts.drop_last()) + if danbooru_valid(posts.last()) {
            seq![posts.last().file_url@]
        } else {
            Seq::empty()
        }
    }
}

impl DanbooruPost {
    /// Whether the post has both a file address and a digest.
    pub fn valid(&self) -> (r: bool)
        ensures
            r == danbooru_valid(*self),
    {
        !(self.file_url.as_str().is_empty() || self.md5.as_str().is_empty())
    }
}

impl DanbooruCollector {
    /// The board.
    pub fn new() -> Self {
        DanbooruCollector
    }

    /// The board, boxed as a collector.
    pub fn boxed() -> Box<dyn KyaniteCollector> {
        Box::new(Self::new())
    }

    /// Whether the board can be searched for `tags`: it allows at most two.
    pub fn allows(&self, tags: &Vec<String>) -> (r: bool)
        ensures
            r == (tags@.len() <= 2),
    {
        tags.len() <= 2
    }

    /// Takes in page `page` of the search for `tags`: an item for each valid
    /// post is added to `items`; returns the page to read next, none once a
    /// page holds no posts.
    pub fn collect_page(&self, tags: &Vec<String>, page: u64, posts: Vec<DanbooruPost>, items: &mut Vec<KyaniteItem>) -> (next: Option<u64>)
        requires
            page < u64::MAX,
        ensures
            next == next_page(page, posts@.len()),
            items_added(old(items)@, final(items)@, danbooru_urls(posts@), views(tags@), self.spec_id()),
    {
        let ghost all = posts@;
        let count = posts.len();
        let mut posts = posts;
        let mut urls: Vec<String> = Vec::new();
        let mut i: usize = 0;
        while i < count
            invariant
                count == all.len(),
                i <= count,
                posts@ == all.skip(i as int),
                views(urls@) == danbooru_urls(all.take(i as int)),
            decreases count - i,
        {
            assert(posts@[0] == all[i as int]);
            let post = posts.remove(0);
            assert(posts@ =~= all.skip(i + 1));
            assert(all.take(i + 1).drop_last() =~= all.take(i as int));
            let ghost before = views(urls@);
            if post.valid() {
                urls.push(post.file_url);
                assert(views(urls@) =~= danbooru_urls(all.take(i + 1)));
            } else {
                assert(views(urls@) =~= danbooru_urls(all.take(i + 1)));
            }
            i = i + 1;
        }
        assert(all.take(count as int) =~= all);
        push_items(items, urls, tags, self.id());
        if count == 0 {
            None
        } else {
            Some(page + 1)
        }
    }
}

impl KyaniteCollector for DanbooruCollector {
    open spec fn spec_id(&self) -> Seq<char> {
        "danbooru"@
    }

    open spec fn spec_name(&self) -> Seq<char> {
        "danbooru"@
    }

    open spec fn spec_api_base(&self) -> Seq<char> {
        "https://danbooru.donmai.us/posts.json?limit=1000"@
    }

    open spec fn spec_site_base(&self) -> Seq<char> {
        "https://danbooru.donmai.us"@
    }

    open spec fn spec_tags_argument(&self) -> Seq<char> {
        "tags"@
    }

    open spec fn spec_page_argument(&self) -> Seq<char> {
        "page"@
    }

    open spec fn spec_first_page(&self) -> u64 {
        1
    }

    fn id(&self) -> (r: &'static str) {
        "danbooru"
    }

    fn name(&self) -> (r: &'static str) {
        "danbooru"
    }

    fn api_base(&self) -> (r: &'static str) {
        "https://danbooru.donmai.us/posts.json?limit=1000"
    }

    fn site_base(&self) -> (r: &'static str) {
        "https://danbooru.donmai.us"
    }

    fn tags_argument(&self) -> (r: &'static str) {
        "tags"
    }

    fn page_argument(&self) -> (r: &'static str) {
        "page"
    }

    fn first_page(&self) -> (r: u64) {
        1
    }
}

/// A post gives an item exactly when it has both a file address and a
/// digest, and then by its file address, after the items of the posts
/// before it.
pub proof fn law_danbooru_post_by_post(posts: Seq<DanbooruPost>, post: DanbooruPost)
    ensures
        danbooru_urls(Seq::empty()) == Seq::<Seq<char>>::empty(),
        danbooru_urls(posts.push(post)) == danbooru_urls(posts) + if post.file_url@.len() > 0
            && post.md5@.len() > 0 {
            seq![post.file_url@]
        } else {
            Seq::<Seq<char>>::empty()
        },
{
    assert(posts.push(post).drop_last() =~= posts);
}

} // verus!
