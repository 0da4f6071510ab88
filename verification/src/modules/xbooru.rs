//! XBooru, read whole pages at a time.

use vstd::prelude::*;
use crate::modules::{gather, gather_urls, next_gather_page, law_gather_from_sources};
use crate::text::views;

verus! {

/// A post as XBooru's API describes it.
#[derive(Clone, Debug)]
pub struct XbooruPost {
    pub width: u32,
    pub height: u32,
    pub score: i32,
    pub file_url: String,
    pub parent_id: Option<u32>,
    pub sample_url: String,
    pub sample_width: u32,
    pub sample_height: u32,
    pub preview_url: String,
    pub rating: String,
    pub tags: String,
    pub id: u64,
    pub change: u32,
    pub md5: String,
    pub creator_id: u32,
    pub has_children: bool,
    pub created_at: String,
    pub status: String,
    pub source: String,
    pub has_notes: bool,
    pub has_comments: bool,
    pub preview_width: u32,
    pub preview_height: u32,
}

/// A page of posts as XBooru's API describes it.
#[derive(Clone, Debug)]
pub struct XbooruPosts {
    pub posts: Vec<XbooruPost>,
    pub count: u32,
    pub offset: u32,
}

/// The file addresses of the posts, in order.
pub open spec fn xbooru_urls(posts: Seq<XbooruPost>) -> Seq<Seq<char>> {
    posts.map_values(|p: XbooruPost| p.file_url@)
}

impl XbooruPosts {
    /// An empty page, what an unreadable page counts as.
    pub fn empty() -> (p: Self)
        ensures
            p.posts@.len() == 0,
            p.count == 0,
            p.offset == 0,
    {
        XbooruPosts { posts: Vec::new(), count: 0, offset: 0 }
    }

    /// Takes in page `page`: the file addresses of its posts that are not
    /// gathered yet join `file_urls`, while it holds fewer than `limit`;
    /// returns the page to read next, none once a page holds no posts or
    /// `limit` addresses are gathered.
    pub fn collect(self, page: u32, file_urls: &mut Vec<String>, limit: u32) -> (next: Option<u32>)
        requires
            page < u32::MAX,
        ensures
            views(final(file_urls)@) == gather(views(old(file_urls)@), xbooru_urls(self.posts@), limit as nat),
            next == next_gather_page(page, self.posts@.len(), final(file_urls)@.len(), limit as nat),
            forall|x: Seq<char>|
                #[trigger] views(final(file_urls)@).contains(x) ==> views(old(file_urls)@).contains(x)
                    || exists|k: int| 0 <= k < self.posts@.len() && (#[trigger] self.posts@[k]).file_url@ == x,
    {
        let ghost all = self.posts@;
        let count = self.posts.len();
        let mut posts = self.posts;
        let mut urls: Vec<String> = Vec::new();
        let mut i: usize = 0;
        while i < count
            invariant
                count == all.len(),
                i <= count,
                posts@ == all.skip(i as int),
                views(urls@) == xbooru_urls(all.take(i as int)),
            decreases count - i,
        {
            assert(posts@[0] == all[i as int]);
            let post = posts.remove(0);
            assert(posts@ =~= all.skip(i + 1));
            let ghost before = views(urls@);
            urls.push(post.file_url);
            assert(views(urls@) =~= before.push(all[i as int].file_url@));
            assert(xbooru_urls(all.take(i + 1)) =~= xbooru_urls(all.take(i as int)).push(all[i as int].file_url@));
            i = i + 1;
        }
        assert(all.take(count as int) =~= all);
        let ghost start = views(file_urls@);
        gather_urls(file_urls, urls, limit);
        proof {
            law_xbooru_file_addresses(all);
            law_gather_from_sources(start, xbooru_urls(all), limit as nat);
            assert forall|x: Seq<char>| #[trigger] views(file_urls@).contains(x) implies start.contains(x)
                || exists|k: int| 0 <= k < all.len() && (#[trigger] all[k]).file_url@ == x by {
                if xbooru_urls(all).contains(x) {
                    let k = choose|k: int| 0 <= k < xbooru_urls(all).len() && xbooru_urls(all)[k] == x;
                    assert(all[k].file_url@ == x);
                }
            }
        }
        if count > 0 && file_urls.len() < limit as usize {
            Some(page + 1)
        } else {
            None
        }
    }
}

/// The addresses offered by a page are its posts' file addresses, one
/// per post, in order.
pub proof fn law_xbooru_file_addresses(posts: Seq<XbooruPost>)
    ensures
        xbooru_urls(posts).len() == posts.len(),
        forall|k: int| 0 <= k < posts.len() ==> #[trigger] xbooru_urls(posts)[k] == posts[k].file_url@,
{
}

} // verus!
