//! Page-by-page gathering of file addresses up to a limit, for the boards
//! whose posts are read whole.

pub mod xbooru;
pub mod yandere;

use vstd::prelude::*;
use crate::text::views;

verus! {

/// `start` followed by those of `urls` not yet gathered, in order, while
/// fewer than `limit` addresses are gathered.
pub open spec fn gather(start: Seq<Seq<char>>, urls: Seq<Seq<char>>, limit: nat) -> Seq<Seq<char>>
    decreases urls.len(),
{
    if urls.len() == 0 {
        start
    } else {
        let prev = gather(start, urls.drop_last(), limit);
        if !prev.contains(urls.last()) && prev.len() < limit {
            prev.push(urls.last())
        } else {
            prev
        }
    }
}

/// The page after `page` when the page just read held posts and fewer than
/// `limit` addresses are gathered; none otherwise.
pub open spec fn next_gather_page(page: u32, post_count: nat, gathered: nat, limit: nat) -> Option<u32> {
    if post_count > 0 && gathered < limit {
        Some((page + 1) as u32)
    } else {
        None
    }
}

/// Whether `url` is among `list`.
fn contains_string(list: &Vec<String>, url: &String) -> (r: bool)
    ensures
        r == views(list@).contains(url@),
{
    let n = list.len();
    let mut i: usize = 0;
    while i < n
        invariant
            n == list@.len(),
            i <= n,
            forall|j: int| 0 <= j < i ==> list@[j]@ != url@,
        decreases n - i,
    {
        if list[i] == *url {
            assert(views(list@)[i as int] == url@);
            return true;
        }
        i = i + 1;
    }
    false
}

/// Adds to `file_urls` those of `urls` it does not hold yet, in order, while
/// it holds fewer than `limit`.
pub fn gather_urls(file_urls: &mut Vec<String>, urls: Vec<String>, limit: u32)
    ensures
        views(final(file_urls)@) == gather(views(old(file_urls)@), views(urls@), limit as nat),
{
    let ghost start = views(file_urls@);
    let ghost orig = urls@;
    let ghost all = views(urls@);
    let n = urls.len();
    let mut urls = urls;
    let mut i: usize = 0;
    while i < n
        invariant
            n == orig.len(),
            all == views(orig),
            i <= n,
            urls@ == orig.skip(i as int),
            views(file_urls@) == gather(start, all.take(i as int), limit as nat),
        decreases n - i,
    {
        assert(urls@[0] == orig[i as int]);
        let url = urls.remove(0);
        assert(urls@ =~= orig.skip(i + 1));
        assert(all.take(i + 1).drop_last() =~= all.take(i as int));
        assert(all.take(i + 1).last() == url@);
        let ghost before = views(file_urls@);
        if !contains_string(file_urls, &url) && file_urls.len() < limit as usize {
            file_urls.push(url);
            assert(views(file_urls@) =~= before.push(all[i as int]));
        }
        i = i + 1;
    }
    assert(all.take(n as int) =~= all);
}

/// Whether no address occurs twice.
pub open spec fn distinct_urls(s: Seq<Seq<char>>) -> bool {
    forall|i: int, j: int| 0 <= i < j < s.len() ==> #[trigger] s[i] != #[trigger] s[j]
}

/// Gathering never repeats an address and stops at the limit: from
/// addresses without repeats it gathers addresses without repeats, keeps
/// the ones it started with, and ends with at most as many as the limit or
/// as it started with.
pub proof fn law_gather_distinct_bounded(start: Seq<Seq<char>>, urls: Seq<Seq<char>>, limit: nat)
    requires
        distinct_urls(start),
    ensures
        distinct_urls(gather(start, urls, limit)),
        gather(start, urls, limit).len() >= start.len(),
        gather(start, urls, limit).take(start.len() as int) == start,
        gather(start, urls, limit).len() <= if start.len() > limit { start.len() } else { limit },
    decreases urls.len(),
{
    if urls.len() == 0 {
        assert(start.take(start.len() as int) =~= start);
    } else {
        law_gather_distinct_bounded(start, urls.drop_last(), limit);
        let prev = gather(start, urls.drop_last(), limit);
        if !prev.contains(urls.last()) && prev.len() < limit {
            let g = prev.push(urls.last());
            assert(g.take(start.len() as int) =~= prev.take(start.len() as int));
            assert forall|i: int, j: int| 0 <= i < j < g.len() implies #[trigger] g[i] != #[trigger] g[j] by {
                if j == g.len() - 1 {
                    assert(g[i] == prev[i]);
                }
            }
        }
    }
}

/// Gathering adds nothing from elsewhere: every gathered address was there
/// at the start or is one of the addresses offered.
pub proof fn law_gather_from_sources(start: Seq<Seq<char>>, urls: Seq<Seq<char>>, limit: nat)
    ensures
        forall|x: Seq<char>| #[trigger] gather(start, urls, limit).contains(x) ==> start.contains(x) || urls.contains(x),
    decreases urls.len(),
{
    if urls.len() > 0 {
        law_gather_from_sources(start, urls.drop_last(), limit);
        let prev = gather(start, urls.drop_last(), limit);
        assert forall|x: Seq<char>| #[trigger] gather(start, urls, limit).contains(x) implies start.contains(x) || urls.contains(x) by {
            let g = gather(start, urls, limit);
            let j = choose|j: int| 0 <= j < g.len() && g[j] == x;
            if j < prev.len() {
                assert(prev[j] == x);
                assert(prev.contains(x));
                if urls.drop_last().contains(x) {
                    let m = choose|m: int| 0 <= m < urls.drop_last().len() && urls.drop_last()[m] == x;
                    assert(urls[m] == x);
                }
            } else {
                assert(x == urls.last());
                assert(urls[urls.len() - 1] == x);
            }
        }
    }
}

/// Gathering leaves nothing out below the limit: when fewer addresses than
/// the limit are gathered, every address offered is among them.
pub proof fn law_gather_takes_all_below_limit(start: Seq<Seq<char>>, urls: Seq<Seq<char>>, limit: nat)
    ensures
        gather(start, urls, limit).len() < limit ==> forall|k: int|
            0 <= k < urls.len() ==> gather(start, urls, limit).contains(#[trigger] urls[k]),
    decreases urls.len(),
{
    if urls.len() > 0 {
        let prev = gather(start, urls.drop_last(), limit);
        let g = gather(start, urls, limit);
        law_gather_takes_all_below_limit(start, urls.drop_last(), limit);
        if g.len() < limit {
            assert(prev.len() <= g.len());
            assert forall|k: int| 0 <= k < urls.len() implies g.contains(#[trigger] urls[k]) by {
                if k < urls.len() - 1 {
                    assert(urls.drop_last()[k] == urls[k]);
                    assert(prev.contains(urls[k]));
                    let j = choose|j: int| 0 <= j < prev.len() && prev[j] == urls[k];
                    if g != prev {
                        assert(g[j] == prev[j]);
                    }
                } else {
                    if !prev.contains(urls.last()) {
                        assert(g[g.len() - 1] == urls.last());
                    }
                }
            }
        }
    }
}

} // verus!
