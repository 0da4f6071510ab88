use kyanite::params::{parse_list, KyaniteParams};
use kyanite::utility::KyaniteUtility;
use kyanite::modules::xbooru::{XbooruPost, XbooruPosts};
use kyanite::modules::yandere::YanderePosts;

fn strings(v: &[&str]) -> Vec<String> {
    v.iter().map(|s| s.to_string()).collect()
}

#[test]
fn params_from_values() {
    let p = KyaniteParams::new(true, false, Some(" e621 , rule34"), Some("zebra, cat ,ant"), true);
    assert!(p.verbose);
    assert!(!p.debug);
    assert!(p.insane);
    assert_eq!(p.sources, strings(&["e621", "rule34"]));
    assert_eq!(p.tags, strings(&["ant", "cat", "zebra"]));
    let q = KyaniteParams::new(false, true, Some("all"), None, false);
    assert_eq!(q.sources, strings(&["all"]));
    assert!(q.tags.is_empty());
    let r = KyaniteParams::new(false, false, None, Some(""), false);
    assert!(r.sources.is_empty());
    assert_eq!(r.tags, strings(&[""]));
}

#[test]
fn lists() {
    assert_eq!(parse_list("a, b,,c "), strings(&["a", "b", "", "c"]));
    assert_eq!(parse_list(""), strings(&[""]));
}

#[test]
fn version_from_manifest_text() {
    let toml = "[package]\nname = \"kyanite\"\nversion = \"2.3.4\"\nedition = \"2021\"\n";
    assert_eq!(KyaniteUtility::version(toml), "2.3.4");
    assert_eq!(KyaniteUtility::version("[package]\nname = \"x\"\n"), "0.1.0");
    assert_eq!(KyaniteUtility::version("version-less"), "0.1.0");
    assert_eq!(KyaniteUtility::version("versions = 1\nversion = \"9\""), "0.1.0");
    assert_eq!(KyaniteUtility::version("a\nversion=\"1.0\" # \"x\""), "1.0");
}

fn xpost(url: &str) -> XbooruPost {
    XbooruPost {
        width: 1, height: 1, score: 0, file_url: url.to_string(), parent_id: None,
        sample_url: String::new(), sample_width: 0, sample_height: 0, preview_url: String::new(),
        rating: String::new(), tags: String::new(), id: 0, change: 0, md5: String::new(),
        creator_id: 0, has_children: false, created_at: String::new(), status: String::new(),
        source: String::new(), has_notes: false, has_comments: false, preview_width: 0, preview_height: 0,
    }
}

#[test]
fn xbooru_gathering_stops_at_limit() {
    let mut urls = Vec::new();
    let page = XbooruPosts { posts: vec![xpost("a"), xpost("b"), xpost("a"), xpost("c")], count: 4, offset: 0 };
    assert_eq!(page.collect(0, &mut urls, 10), Some(1));
    assert_eq!(urls, strings(&["a", "b", "c"]));
    let page2 = XbooruPosts { posts: vec![xpost("c"), xpost("d"), xpost("e")], count: 3, offset: 4 };
    assert_eq!(page2.collect(1, &mut urls, 4), None);
    assert_eq!(urls, strings(&["a", "b", "c", "d"]));
    let empty = XbooruPosts::empty();
    assert_eq!(empty.count, 0);
    assert_eq!(empty.collect(2, &mut urls, 100), None);
}

fn ypost(url: &str) -> YanderePosts {
    YanderePosts {
        id: 0, tags: String::new(), created_at: 0, creator_id: 0, author: String::new(),
        source: String::new(), score: 0, md5: String::new(), file_size: 0, file_url: url.to_string(),
        is_shown_in_index: true, preview_url: String::new(), preview_width: 0, preview_height: 0,
        sample_url: String::new(), sample_width: 0, sample_height: 0, rating: String::new(),
        status: String::new(), width: 0, height: 0, has_children: false,
    }
}

#[test]
fn yandere_gathering() {
    let mut urls = strings(&["x"]);
    assert_eq!(YanderePosts::collect(vec![ypost("x"), ypost("y")], 0, &mut urls, 5), Some(1));
    assert_eq!(urls, strings(&["x", "y"]));
    assert_eq!(YanderePosts::collect(vec![], 1, &mut urls, 5), None);
}
