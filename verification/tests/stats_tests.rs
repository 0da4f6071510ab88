use kyanite::stats::StatsContainer;
use kyanite::downloader::{DownloadStatistics, Downloader, FileState};
use kyanite::utils::{get_file_ext, hash_string};
use std::collections::hash_map::DefaultHasher;
use std::hash::{Hash, Hasher};

fn std_hash(text: &str) -> String {
    let mut hasher = DefaultHasher::new();
    text.hash(&mut hasher);
    hasher.finish().to_string()
}

#[test]
fn stats_words_and_counts() {
    let mut s = StatsContainer::new();
    assert_eq!(s.count(), 0);
    assert_eq!(s.add_ok(), "DOWNLOADED");
    assert_eq!(s.add_failed(), "FAILED");
    assert_eq!(s.add_skipped(), "SKIPPED");
    assert_eq!(s.add_inherited(), "INHERITED");
    assert_eq!(s.add_skipped(), "SKIPPED");
    assert_eq!(s.count(), 5);
    assert_eq!(s.describe(), "Ok: 1 | Err: 1 | Skp: 2 | Cpd: 1");
    s.add_size(2048);
    s.add_size(1);
    assert_eq!(s.size, 2049);
}

#[test]
fn each_count_adds_one() {
    let mut s = StatsContainer::new();
    for i in 0..10u64 {
        let before = s.count();
        match i % 4 {
            0 => { s.add_ok(); }
            1 => { s.add_failed(); }
            2 => { s.add_skipped(); }
            _ => { s.add_inherited(); }
        }
        assert_eq!(s.count(), before + 1);
    }
}

#[test]
fn download_statistics_lines() {
    let mut d = DownloadStatistics::new(3);
    assert_eq!(d.add_ok("a.jpg"), "DONE | 1/3 | [O: 0 | X: 0 | S: 0] | a.jpg ");
    assert_eq!(d.add_nok("b.png"), "FAIL | 2/3 | [O: 1 | X: 0 | S: 0] | b.png ");
    assert_eq!(d.add_skip("c.gif"), "SKIP | 3/3 | [O: 1 | X: 1 | S: 0] | c.gif ");
}

#[test]
fn extension_of_urls() {
    assert_eq!(get_file_ext("https://x.org/a/b.c.png"), "png");
    assert_eq!(get_file_ext("nodot"), "nodot");
    assert_eq!(get_file_ext("ends."), "");
}

#[test]
fn hash_string_is_the_std_hash() {
    for text in ["", "https://x.org/a.png", "héllo wörld", "a"] {
        assert_eq!(hash_string(text), std_hash(text));
        assert!(hash_string(text).chars().all(|c| c.is_ascii_digit()));
    }
}

#[test]
fn downloader_names_and_steps() {
    let urls = vec!["https://x.org/one.jpg".to_string(), "https://x.org/two.png".to_string()];
    let mut d = Downloader::new(urls.clone());
    d.set_path("out".to_string());
    assert_eq!(d.urls(), &urls);
    let name0 = format!("{}.jpg", std_hash("https://x.org/one.jpg"));
    assert_eq!(d.file_name(0), name0);
    assert_eq!(d.file_path(0), format!("out/{}", name0));
    let mut stats = d.statistics();
    let l0 = d.download(&mut stats, 0, FileState::Stored);
    assert_eq!(l0, format!("DONE | 1/2 | [O: 0 | X: 0 | S: 0] | {} ", name0));
    let name1 = format!("{}.png", std_hash("https://x.org/two.png"));
    let l1 = d.download(&mut stats, 1, FileState::Present);
    assert_eq!(l1, format!("SKIP | 2/2 | [O: 1 | X: 0 | S: 0] | {} ", name1));
    let d2 = Downloader::new(vec!["u".to_string()]);
    assert_eq!(d2.file_path(0), format!("/{}.u", std_hash("u")));
}
