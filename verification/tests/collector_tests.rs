use kyanite::collector::{CollectorCore, CollectorKind, KyaniteCollector};
use kyanite::collectors::danbooru::{DanbooruCollector, DanbooruPost};
use kyanite::collectors::e621::{E621Collector, E621Post, E621PostFile};
use kyanite::collectors::gelbooru::{GelbooruCollector, GelboruPost};
use kyanite::collectors::rule34::{Rule34Collector, Rule34Post};
use kyanite::collectors::yandere::{YandereCollector, YanderePost};
use kyanite::item::KyaniteItem;
use kyanite::manifest::KyaniteManifest;
use kyanite::params::KyaniteParams;
use kyanite::text::join;

fn strings(v: &[&str]) -> Vec<String> {
    v.iter().map(|s| s.to_string()).collect()
}

#[test]
fn api_addresses() {
    let tags = join(&strings(&["cat", "dog"]), "+");
    assert_eq!(
        E621Collector::new().api_by_page(tags.clone(), 0),
        "https://e621.net/posts.json?tags=cat+dog&page=0"
    );
    assert_eq!(
        DanbooruCollector::new().api_by_page(tags.clone(), 12),
        "https://danbooru.donmai.us/posts.json?limit=1000&tags=cat+dog&page=12"
    );
    assert_eq!(
        GelbooruCollector::new().api_by_page(tags.clone(), 3),
        "https://gelbooru.com/index.php?page=dapi&s=post&q=index&tags=cat+dog&pid=3"
    );
    assert_eq!(
        Rule34Collector::new().api_by_page(tags.clone(), 1),
        "https://rule34.xxx/index.php?page=dapi&s=post&q=index&tags=cat+dog&pid=1"
    );
    assert_eq!(
        YandereCollector::new().api_by_page(tags, 7),
        "https://yande.re/post.json?limit=100&tags=cat+dog&page=7"
    );
}

#[test]
fn markers_and_names() {
    assert_eq!(E621Collector::new().starting_marker(), "?");
    assert_eq!(GelbooruCollector::new().starting_marker(), "&");
    assert_eq!(YandereCollector::new().starting_marker(), "&");
    assert_eq!(E621Collector::new().id(), "e621");
    assert_eq!(E621Collector::new().name(), "E621");
    assert_eq!(YandereCollector::new().name(), "yande.re");
    assert_eq!(DanbooruCollector::new().first_page(), 1);
    assert_eq!(Rule34Collector::new().first_page(), 0);
    assert_eq!(GelbooruCollector::new().site_base(), "https://gelbooru.com");
    assert_eq!(Rule34Collector::new().tags_argument(), "tags");
    assert_eq!(Rule34Collector::new().page_argument(), "pid");
    assert_eq!(E621Collector::boxed().id(), "e621");
    assert_eq!(DanbooruCollector::boxed().name(), "danbooru");
    assert_eq!(Rule34Collector::boxed().api_base(), "https://rule34.xxx/index.php?page=dapi&s=post&q=index");
    assert_eq!(YandereCollector::boxed().site_base(), "https://yande.re");
}

fn e621_post(url: Option<&str>) -> E621Post {
    E621Post { file: E621PostFile { md5: "m".to_string(), url: url.map(|u| u.to_string()) } }
}

#[test]
fn e621_pages() {
    let c = E621Collector::new();
    let tags = strings(&["cat"]);
    let mut items: Vec<KyaniteItem> = Vec::new();
    let posts = vec![e621_post(Some("https://e/a.png")), e621_post(None), e621_post(Some("")), e621_post(Some("https://e/b.jpg"))];
    assert_eq!(c.collect_page(&tags, 0, posts, &mut items), Some(1));
    let urls: Vec<&str> = items.iter().map(|i| i.url.as_str()).collect();
    assert_eq!(urls, vec!["https://e/a.png", "https://e/b.jpg"]);
    assert_eq!(items[0].coll, "e621");
    assert_eq!(items[0].tags, tags);
    assert_eq!(c.collect_page(&tags, 1, vec![], &mut items), None);
    assert_eq!(items.len(), 2);
}

#[test]
fn danbooru_pages_and_tag_limit() {
    let c = DanbooruCollector::new();
    assert!(c.allows(&strings(&["a", "b"])));
    assert!(!c.allows(&strings(&["a", "b", "c"])));
    let post = |url: &str, md5: &str| DanbooruPost { file_url: url.to_string(), tag_string_general: String::new(), md5: md5.to_string() };
    assert!(post("u", "m").valid());
    assert!(!post("", "m").valid());
    assert!(!post("u", "").valid());
    let mut items = Vec::new();
    let next = c.collect_page(&strings(&["a"]), 1, vec![post("x.png", "m"), post("y.png", ""), post("", "m")], &mut items);
    assert_eq!(next, Some(2));
    assert_eq!(items.len(), 1);
    assert_eq!(items[0].url, "x.png");
    assert_eq!(items[0].coll, "danbooru");
}

#[test]
fn plain_pages() {
    let mut items = Vec::new();
    let g = vec![GelboruPost { file_url: "g.png".to_string(), tags: String::new(), md5: String::new() }];
    assert_eq!(GelbooruCollector::new().collect_page(&vec![], 0, g, &mut items), Some(1));
    let r = vec![
        Rule34Post { file_url: "r1.png".to_string(), tags: String::new(), md5: String::new() },
        Rule34Post { file_url: "r2.png".to_string(), tags: String::new(), md5: String::new() },
    ];
    assert_eq!(Rule34Collector::new().collect_page(&vec![], 4, r, &mut items), Some(5));
    let y = vec![YanderePost { file_url: "y.png".to_string(), tags: String::new(), md5: String::new() }];
    assert_eq!(YandereCollector::new().collect_page(&vec![], 0, y, &mut items), Some(1));
    assert_eq!(YandereCollector::new().collect_page(&vec![], 1, vec![], &mut items), None);
    let colls: Vec<&str> = items.iter().map(|i| i.coll.as_str()).collect();
    assert_eq!(colls, vec!["gelbooru", "rule34", "rule34", "yandere"]);
}

fn params(sources: &str) -> KyaniteParams {
    KyaniteParams::new(false, false, Some(sources), Some("x"), false)
}

fn job_ids(core: &CollectorCore) -> Vec<&'static str> {
    core.jobs().iter().map(|k| k.id()).collect()
}

#[test]
fn jobs_follow_the_sources() {
    let man = KyaniteManifest::new(&vec![]);
    let all = CollectorCore::new(params("all"), man.clone());
    assert_eq!(job_ids(&all), vec!["e621", "gelbooru", "rule34", "yandere"]);
    assert_eq!(all.stats.count(), 0);
    let some = CollectorCore::new(params("Rule34, e621"), man.clone());
    assert_eq!(job_ids(&some), vec!["e621", "rule34"]);
    let twice = CollectorCore::new(params("e621,all,danbooru"), man.clone());
    assert_eq!(job_ids(&twice), vec!["e621", "e621", "gelbooru", "rule34", "yandere"]);
    let none = CollectorCore::new(KyaniteParams::new(false, false, None, None, false), man);
    assert!(none.jobs().is_empty());
    assert_eq!(CollectorKind::Yandere.name(), "yande.re");
    assert_eq!(CollectorKind::Danbooru.id(), "danbooru");
}
