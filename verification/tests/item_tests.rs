use kyanite::item::{KyaniteItem, SaveAction, SaveOutcome};
use kyanite::manifest::{KyaniteManifest, KyaniteManifestItem};
use kyanite::stats::StatsContainer;

fn strings(v: &[&str]) -> Vec<String> {
    v.iter().map(|s| s.to_string()).collect()
}

fn md5_hex(data: &[u8]) -> String {
    format!("{:x}", md5::compute(data))
}

fn item(url: &str) -> KyaniteItem {
    KyaniteItem::new(url.to_string(), strings(&["cat", "dog"]), "e621".to_string())
}

#[test]
fn new_item_fields() {
    let url = "https://static.example.org/data/ab/cd/file.name.jpg?download=1";
    let it = item(url);
    assert_eq!(it.url, url);
    assert_eq!(it.ext, "jpg");
    assert_eq!(it.md5.url, md5_hex(url.as_bytes()));
    assert_eq!(it.md5.url.len(), 32);
    assert_eq!(it.md5.image, "");
    assert!(it.data.is_none());
    assert_eq!(it.size, 0);
    assert_eq!(it.tags, strings(&["cat", "dog"]));
    assert_eq!(it.coll, "e621");
}

#[test]
fn extension_edge_cases() {
    assert_eq!(item("https://x.org/noext").ext, "org/noext");
    assert_eq!(item("nodot?q=1").ext, "nodot");
    assert_eq!(item("a.png?").ext, "png");
}

#[test]
fn name_folder_and_path() {
    let it = item("https://x.org/a.png");
    let digest = md5_hex(b"https://x.org/a.png");
    assert_eq!(it.name(), format!("{}.png", digest));
    assert_eq!(it.folder(), "downloads/e621/cat-dog");
    assert_eq!(it.path(), format!("downloads/e621/cat-dog/{}.png", digest));
    let odd = KyaniteItem::new("u.gif".to_string(), strings(&["Big Cat!", "x_y"]), "rule34".to_string());
    assert_eq!(odd.folder(), "downloads/rule34/big-cat-x-y");
}

#[test]
fn download_records_digests_and_size() {
    let mut it = item("https://x.org/a.png");
    let bytes = vec![1u8, 2, 3, 4, 5];
    it.download(bytes.clone());
    assert_eq!(it.md5.url, md5_hex(b"https://x.org/a.png"));
    assert_eq!(it.md5.image, md5_hex(&bytes));
    assert_eq!(it.size, 5);
    assert_eq!(it.data, Some(bytes));
    it.expunge();
    assert!(it.data.is_none());
    assert_eq!(it.size, 5);
}

#[test]
fn indexed_takes_the_last_match() {
    let it = item("https://x.org/a.png");
    let name = it.name();
    let mut man = KyaniteManifest::new(&vec![
        ("other.png".to_string(), "p0".to_string()),
        (name.clone(), "p1".to_string()),
    ]);
    assert_eq!(man.files.len(), 2);
    assert!(man.files[0].tags.is_empty());
    assert_eq!(it.indexed(&man), Some("p1".to_string()));
    man.add(KyaniteManifestItem::new(name.clone(), "p2".to_string(), vec![]));
    assert_eq!(it.indexed(&man), Some("p2".to_string()));
    let empty = KyaniteManifest::new(&vec![]);
    assert_eq!(it.indexed(&empty), None);
}

#[test]
fn plan_save_cases() {
    let it = item("https://x.org/a.png");
    let known = KyaniteManifest::new(&vec![(it.name(), "old/place.png".to_string())]);
    let unknown = KyaniteManifest::new(&vec![]);
    match it.plan_save(&known, true, false) {
        SaveAction::Copy { from } => assert_eq!(from, "old/place.png"),
        other => panic!("unexpected {:?}", other),
    }
    assert!(matches!(it.plan_save(&known, false, false), SaveAction::Skip));
    assert!(matches!(it.plan_save(&known, true, true), SaveAction::Skip));
    assert!(matches!(it.plan_save(&unknown, true, false), SaveAction::Store));
    assert!(matches!(it.plan_save(&unknown, false, true), SaveAction::Skip));
}

#[test]
fn save_outcomes() {
    let mut stats = StatsContainer::new();
    let mut man = KyaniteManifest::new(&vec![]);
    let mut it = item("https://x.org/a.png");
    it.download(vec![9u8; 10]);
    assert_eq!(it.save(&mut stats, &mut man, SaveOutcome::Stored), "DOWNLOADED");
    assert_eq!(stats.ok, 1);
    assert_eq!(stats.size, 10);
    assert_eq!(man.files.len(), 1);
    assert_eq!(man.files[0].name, it.name());
    assert_eq!(man.files[0].file, it.path());
    assert_eq!(man.files[0].tags, strings(&["cat", "dog"]));
    assert!(it.data.is_none());

    let mut failed = item("https://x.org/b.png");
    failed.download(vec![1u8]);
    assert_eq!(failed.save(&mut stats, &mut man, SaveOutcome::Failed), "FAILED");
    assert!(failed.data.is_none());
    assert_eq!(stats.failed, 1);
    assert_eq!(stats.size, 10);
    assert_eq!(man.files.len(), 1);

    let mut kept = item("https://x.org/c.png");
    assert_eq!(kept.save(&mut stats, &mut man, SaveOutcome::Skipped), "SKIPPED");
    assert_eq!(kept.save(&mut stats, &mut man, SaveOutcome::Inherited), "INHERITED");
    assert_eq!(stats.count(), 4);
    assert_eq!(man.files.len(), 1);
}

#[test]
fn trim_keeps_first_of_each_url() {
    let mut a2 = item("a.png");
    a2.coll = "second".to_string();
    let items = vec![item("a.png"), item("b.png"), a2, item("c.png"), item("b.png")];
    let t = KyaniteItem::trim(items);
    let urls: Vec<&str> = t.iter().map(|i| i.url.as_str()).collect();
    assert_eq!(urls, vec!["a.png", "b.png", "c.png"]);
    assert_eq!(t[0].coll, "e621");
    let again = KyaniteItem::trim(t.clone());
    assert_eq!(again.len(), t.len());
    assert!(KyaniteItem::trim(vec![]).is_empty());
}

#[test]
fn skip_keeps_flagged_items() {
    let items = vec![item("a.png"), item("b.png"), item("c.png")];
    let kept = KyaniteItem::skip(items, &vec![true, false, true]);
    let urls: Vec<&str> = kept.iter().map(|i| i.url.as_str()).collect();
    assert_eq!(urls, vec!["a.png", "c.png"]);
}

#[test]
fn sort_by_name_is_stable() {
    let mut dup = item("b.png");
    dup.coll = "later".to_string();
    let items = vec![item("c.png"), item("b.png"), item("a.png"), dup, item("a.gif")];
    let mut expected: Vec<(String, String)> = items.iter().map(|i| (i.name(), i.coll.clone())).collect();
    expected.sort_by(|x, y| x.0.cmp(&y.0));
    let sorted = KyaniteItem::sort(items);
    let got: Vec<(String, String)> = sorted.iter().map(|i| (i.name(), i.coll.clone())).collect();
    assert_eq!(got, expected);
}

#[test]
fn stored_item_is_indexed_afterwards() {
    let mut stats = StatsContainer::new();
    let mut man = KyaniteManifest::new(&vec![("x.png".to_string(), "elsewhere".to_string())]);
    let mut it = item("https://x.org/stored.png");
    assert_eq!(it.indexed(&man), None);
    assert!(matches!(it.plan_save(&man, false, false), SaveAction::Store));
    it.download(vec![7u8; 3]);
    it.save(&mut stats, &mut man, SaveOutcome::Stored);
    assert_eq!(it.indexed(&man), Some(it.path()));
    assert!(matches!(it.plan_save(&man, true, true), SaveAction::Skip));
}
