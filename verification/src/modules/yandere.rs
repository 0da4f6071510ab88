//! yande.re, read whole pages at a time.

use vstd::prelude::*;
use crate::modules::{gather, gather_urls, next_gather_page, law_gather_from_sources};
use crate::text::views;

verus! {

/// A post as yande.re's API describes it.
#[derive(Clone, Debug)]
pub struct YanderePosts {
    pub id: u32,
    pub tags: String,
    pub created_at: u32,
    pub creator_id: u32,
    pub author: String,
    pub source: String,
    pub score: i32,
    pub md5: String,
    pub file_size: u32,
    pub file_url: String,
    pub is_shown_in_index: bool,
    pub preview_url: String,
    pub preview_width: u32,
    pub preview_height: u32,
    pub sample_url: String,
    pub sample_width: u32,
    pub sample_height: u32,
    pub rating: String,
    pub status: String,
    pub width: u32,
    pub height: u32,
    pub has_children: bool,
}

/// The file addresses of the posts, in order.
pub open spec fn yandere_post_urls(posts: Seq<YanderePosts>) -> Seq<Seq<char>> {
    posts.map_values(|p: YanderePosts| p.file_url@)
}

impl YanderePosts {
    /// Takes in page `page`, made of `posts`: their file addresses that are
    /// not gathered yet join `file_urls`, while it holds fewer than `limit`;
    /// returns the page to read next, none once a page holds no posts or
    /// `limit` addresses are gathered.
    pub fn collect(posts: Vec<Self>, page: u32, file_urls: &mut Vec<String>, limit: u32) -> (next: Option<u32>)
        requires
            page < u32::MAX,
        ensures
            views(final(file_urls)@) == gather(views(old(file_urls)@), yandere_post_urls(posts@), limit as nat),
            next == next_gather_page(page, posts@.len(), final(file_urls)@.len(), limit as nat),
            forall|x: Seq<char>|
                #[trigger] views(final(file_urls)@).contains(x) ==> views(old(file_urls)@).contains(x)
                    || exists|k: int| 0 <= k < posts@.len() && (#[trigger] posts@[k]).file_url@ == x,
    {
        let ghost all = posts@;
        let count = posts.len();
        let mut posts = posts;
        let mut urls: Vec<String> = Vec::new();
        let mut i: usize = 0;
        while i < count
            invariant
                count == all.len(),
                i <= count,
                posts@ == all.skip(i as int),
                views(urls@) == yandere_post_urls(all.take(i as int)),
            decreases count - i,
        {
            assert(posts@[0] == all[i as int]);
            let post = posts.remove(0);
            assert(posts@ =~= all.skip(i + 1));
            let ghost before = views(urls@);
            urls.push(post.file_url);
            assert(views(urls@) =~= before.push(all[i as int].file_url@));
            assert(yandere_post_urls(all.take(i + 1)) =~= yandere_post_urls(all.take(i as int)).push(all[i as int].file_url@));
            i = i + 1;
        }
        assert(all.take(count as int) =~= all);
        let ghost start = views(file_urls@);
        gather_urls(file_urls, urls, limit);
        proof {
            law_yandere_post_file_addresses(all);
            law_gather_from_sources(start, yandere_post_urls(all), limit as nat);
            assert forall|x: Seq<char>| #[trigger] views(file_urls@).contains(x) implies start.contains(x)
                || exists|k: int| 0 <= k < all.len() && (#[trigger] all[k]).file_url@ == x by {
                if yandere_post_urls(all).contains(x) {
                    let k = choose|k: int| 0 <= k < yandere_post_urls(all).len() && yandere_post_urls(all)[k] == x;
                    assert(all[k].file_url@ == x);
                }
            }
        }
        if count > 0 && file_urls.len() < limit as usize {
            Some(page + 1)
        } else {
            None
        }
    }
}

/// The addresses offered by a page are its posts' file addresses, one
/// per post, in order.
pub proof fn law_yandere_post_file_addresses(posts: Seq<YanderePosts>)
    ensures
        yandere_post_urls(posts).len() == posts.len(),
        forall|k: int| 0 <= k < posts.len() ==> #[trigger] yandere_post_urls(posts)[k] == posts[k].file_url@,
{
}

} // verus!
