//! E621.

use vstd::prelude::*;
use crate::collector::{KyaniteCollector, items_added, next_page, push_items};
use crate::item::KyaniteItem;
use crate::text::views;

verus! {

/// The E621 board.
#[derive(Clone, Copy, Debug)]
pub struct E621Collector;

/// A page of posts as E621's API describes it.
#[derive(Clone, Debug)]
pub struct E621Response {
    pub posts: Vec<E621Post>,
}

/// A post as E621's API describes it.
#[derive(Clone, Debug)]
pub struct E621Post {
    pub file: E621PostFile,
}

/// The file of a post as E621's API describes it.
#[derive(Clone, Debug)]
pub struct E621PostFile {
    pub md5: String,
    pub url: Option<String>,
}

/// The file addresses of the posts that have a non-empty one, in order.
pub open spec fn e621_urls(posts: Seq<E621Post>) -> Seq<Seq<char>>
    decreases posts.len(),
{
    if posts.len() == 0 {
        Seq::empty()
    } else {
        e621_urls(posts.drop_last()) + match posts.last().file.url {
            Some(u) => if u@.len() > 0 {
                seq![u@]
            } else {
                Seq::empty()
            },
            None => Seq::empty(),
        }
    }
}

impl E621Collector {
    /// The board.
    pub fn new() -> Self {
        E621Collector
    }

    /// The board, boxed as a collector.
    pub fn boxed() -> Box<dyn KyaniteCollector> {
        Box::new(Self::new())
    }

    /// Takes in page `page` of the search for `tags`: an item for each post
    /// with a non-empty file address is added to `items`; returns the page
    /// to read next, none once a page holds no posts.
    pub fn collect_page(&self, tags: &Vec<String>, page: u64, posts: Vec<E621Post>, items: &mut Vec<KyaniteItem>) -> (next: Option<u64>)
        requires
            page < u64::MAX,
        ensures
            next == next_page(page, posts@.len()),
            items_added(old(items)@, final(items)@, e621_urls(posts@), views(tags@), self.spec_id()),
    {
        let ghost all = posts@;
        let count = posts.len();
        let mut posts = posts;
        let mut urls: Vec<String> = Vec::new();
        let mut i: usize = 0;
        while i < count
            invariant
                count == all.len(),
                i <= count,
                posts@ == all.skip(i as int),
                views(urls@) == e621_urls(all.take(i as int)),
            decreases count - i,
        {
            assert(posts@[0] == all[i as int]);
            let post = posts.remove(0);
            assert(posts@ =~= all.skip(i + 1));
            assert(all.take(i + 1).drop_last() =~= all.take(i as int));
            let url = match post.file.url {
                Some(u) => u,
                None => String::new(),
            };
            if !url.as_str().is_empty() {
                urls.push(url);
                assert(views(urls@) =~= e621_urls(all.take(i + 1)));
            } else {
                assert(views(urls@) =~= e621_urls(all.take(i + 1)));
            }
            i = i + 1;
        }
        assert(all.take(count as int) =~= all);
        push_items(items, urls, tags, self.id());
        if count == 0 {
            None
        } else {
            Some(page + 1)
        }
    }
}

impl KyaniteCollector for E621Collector {
    open spec fn spec_id(&self) -> Seq<char> {
        "e621"@
    }

    open spec fn spec_name(&self) -> Seq<char> {
        "E621"@
    }

    open spec fn spec_api_base(&self) -> Seq<char> {
        "https://e621.net/posts.json"@
    }

    open spec fn spec_site_base(&self) -> Seq<char> {
        "https://e621.net"@
    }

    open spec fn spec_tags_argument(&self) -> Seq<char> {
        "tags"@
    }

    open spec fn spec_page_argument(&self) -> Seq<char> {
        "page"@
    }

    open spec fn spec_first_page(&self) -> u64 {
        0
    }

    fn id(&self) -> (r: &'static str) {
        "e621"
    }

    fn name(&self) -> (r: &'static str) {
        "E621"
    }

    fn api_base(&self) -> (r: &'static str) {
        "https://e621.net/posts.json"
    }

    fn site_base(&self) -> (r: &'static str) {
        "https://e621.net"
    }

    fn tags_argument(&self) -> (r: &'static str) {
        "tags"
    }

    fn page_argument(&self) -> (r: &'static str) {
        "page"
    }

    fn first_page(&self) -> (r: u64) {
        0
    }
}

/// A post gives an item exactly when it has a non-empty file address, and
/// then by that address, after the items of the posts before it.
pub proof fn law_e621_post_by_post(posts: Seq<E621Post>, post: E621Post)
    ensures
        e621_urls(Seq::empty()) == Seq::<Seq<char>>::empty(),
        e621_urls(posts.push(post)) == e621_urls(posts) + match post.file.url {
            Some(u) => if u@.len() > 0 {
                seq![u@]
            } else {
                Seq::<Seq<char>>::empty()
            },
            None => Seq::<Seq<char>>::empty(),
        },
{
    assert(posts.push(post).drop_last() =~= posts);
}

} // verus!
