//! Rule34.

use vstd::prelude::*;
use crate::collector::{KyaniteCollector, items_added, next_page, push_items};
use crate::item::{KyaniteItem, is_new_item};
use crate::text::views;

verus! {

/// The Rule34 board.
#[derive(Clone, Copy, Debug)]
pub struct Rule34Collector;

/// A page of posts as Rule34's API describes it.
#[derive(Clone, Debug)]
pub struct Rule34Posts {
    pub posts: Vec<Rule34Post>,
}

/// A post as Rule34's API describes it.
#[derive(Clone, Debug)]
pub struct Rule34Post {
    pub file_url: String,
    pub tags: String,
    pub md5: String,
}

/// The file addresses of the posts, in order.
pub open spec fn rule34_urls(posts: Seq<Rule34Post>) -> Seq<Seq<char>> {
    posts.map_values(|p: Rule34Post| p.file_url@)
}

impl Rule34Collector {
    /// The board.
    pub fn new() -> Self {
        Rule34Collector
    }

    /// The board, boxed as a collector.
    pub fn boxed() -> Box<dyn KyaniteCollector> {
        Box::new(Self::new())
    }

    /// Takes in page `page` of the search for `tags`: an item for each post
    /// is added to `items`; returns the page to read next, none once a page
    /// holds no posts.
    pub fn collect_page(&self, tags: &Vec<String>, page: u64, posts: Vec<Rule34Post>, items: &mut Vec<KyaniteItem>) -> (next: Option<u64>)
        requires
            page < u64::MAX,
        ensures
            next == next_page(page, posts@.len()),
            items_added(old(items)@, final(items)@, rule34_urls(posts@), views(tags@), self.spec_id()),
            final(items)@.len() == old(items)@.len() + posts@.len(),
            forall|k: int|
                0 <= k < posts@.len() ==> is_new_item(
                    #[trigger] final(items)@[old(items)@.len() + k],
                    posts@[k].file_url@,
                    views(tags@),
                    self.spec_id(),
                ),
    {
        let ghost all = posts@;
        let count = posts.len();
        let mut posts = posts;
        let mut urls: Vec<String> = Vec::new();
        let mut i: usize = 0;
        while i < count
            invariant
                count == all.len(),
                i <= count,
                posts@ == all.skip(i as int),
                views(urls@) == rule34_urls(all.take(i as int)),
            decreases count - i,
        {
            assert(posts@[0] == all[i as int]);
            let post = posts.remove(0);
            assert(posts@ =~= all.skip(i + 1));
            let ghost before = views(urls@);
            assert(post == all[i as int]);
            urls.push(post.file_url);
            assert(views(urls@) =~= before.push(all[i as int].file_url@));
            assert(rule34_urls(all.take(i + 1)) =~= rule34_urls(all.take(i as int)).push(all[i as int].file_url@));
            i = i + 1;
        }
        assert(all.take(count as int) =~= all);
        push_items(items, urls, tags, self.id());
        proof {
            law_rule34_every_post(all);
        }
        if count == 0 {
            None
        } else {
            Some(page + 1)
        }
    }
}

impl KyaniteCollector for Rule34Collector {
    open spec fn spec_id(&self) -> Seq<char> {
        "rule34"@
    }

    open spec fn spec_name(&self) -> Seq<char> {
        "Rule34"@
    }

    open spec fn spec_api_base(&self) -> Seq<char> {
        "https://rule34.xxx/index.php?page=dapi&s=post&q=index"@
    }

    open spec fn spec_site_base(&self) -> Seq<char> {
        "https://rule34.xxx"@
    }

    open spec fn spec_tags_argument(&self) -> Seq<char> {
        "tags"@
    }

    open spec fn spec_page_argument(&self) -> Seq<char> {
        "pid"@
    }

    open spec fn spec_first_page(&self) -> u64 {
        0
    }

    fn id(&self) -> (r: &'static str) {
        "rule34"
    }

    fn name(&self) -> (r: &'static str) {
        "Rule34"
    }

    fn api_base(&self) -> (r: &'static str) {
        "https://rule34.xxx/index.php?page=dapi&s=post&q=index"
    }

    fn site_base(&self) -> (r: &'static str) {
        "https://rule34.xxx"
    }

    fn tags_argument(&self) -> (r: &'static str) {
        "tags"
    }

    fn page_argument(&self) -> (r: &'static str) {
        "pid"
    }

    fn first_page(&self) -> (r: u64) {
        0
    }
}

/// Every post of a page gives an item: one file address per post, the
/// post's own, in order.
pub proof fn law_rule34_every_post(posts: Seq<Rule34Post>)
    ensures
        rule34_urls(posts).len() == posts.len(),
        forall|k: int| 0 <= k < posts.len() ==> #[trigger] rule34_urls(posts)[k] == posts[k].file_url@,
{
}

} // verus!
