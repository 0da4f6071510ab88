//! An image found by a collector: where it comes from, what it is called,
//! where it is stored, and what a download run does with it.

use vstd::prelude::*;
use crate::text::{
    views, split, split_spec, lemma_split_nonempty, join, join_spec, hex, push_hex, copy_str,
    lemma_hex_len, lemma_split_pieces_free, lemma_split_piece_chars,
};
use crate::manifest::{KyaniteManifest, KyaniteManifestItem};
use crate::stats::StatsContainer;
use crate::order::{sort_by_keys, stably_sorted_by};

verus! {

// ---------------------------------------------------------------------------
// Outside functions
// ---------------------------------------------------------------------------

/// The MD5 digest of a byte string.
pub uninterp spec fn md5_of(data: Seq<u8>) -> Seq<u8>;

/// Calls `md5::compute`, which returns the MD5 digest of `data`: a `Digest`
/// that holds 16 bytes. The bytes are named by `md5_of`; their length is
/// the one fact stated of them.
#[verifier::external_body]
fn md5_digest(data: &[u8]) -> (d: Vec<u8>)
    ensures
        d@ == md5_of(data@),
        d@.len() == 16,
{
    md5::compute(data).0.to_vec()
}

/// The slug that `slug::slugify` makes of a text.
pub uninterp spec fn slug_of(text: Seq<char>) -> Seq<char>;

/// What the documentation of `slug::slugify` promises of every slug: it
/// consists of `a`-`z`, `0`-`9` and `-`, never holds two `-` in a row and
/// never starts or ends with `-`.
pub open spec fn is_slug(s: Seq<char>) -> bool {
    &&& forall|i: int|
        0 <= i < s.len() ==> ('a' <= #[trigger] s[i] <= 'z' || '0' <= s[i] <= '9' || s[i] == '-')
    &&& forall|i: int| 0 <= i < s.len() - 1 ==> !(#[trigger] s[i] == '-' && s[i + 1] == '-')
    &&& s.len() > 0 ==> s[0] != '-' && s.last() != '-'
}

/// Calls `slug::slugify`, which turns any text into an ASCII slug for file
/// names; the slug is named by `slug_of`, and the promises of its
/// documentation on the characters of a slug are stated.
#[verifier::external_body]
fn slugify(text: &str) -> (r: String)
    ensures
        r@ == slug_of(text@),
        is_slug(r@),
{
    slug::slugify(text)
}

// ---------------------------------------------------------------------------
// Models
// ---------------------------------------------------------------------------

/// The lower-case hexadecimal MD5 digest of a text's UTF-8 bytes, as
/// `format!("{:x}", md5::compute(text))` writes it.
pub open spec fn md5_hex_spec(text: Seq<char>) -> Seq<char> {
    hex(md5_of(vstd::utf8::encode_utf8(text)))
}

/// The extension of an image URL: the piece after the last `.`, up to the
/// first `?`.
pub open spec fn ext_spec(url: Seq<char>) -> Seq<char> {
    split_spec(split_spec(url, '.').last(), '?')[0]
}

/// The folder an item with these tags from this collection is stored in.
pub open spec fn folder_spec(coll: Seq<char>, tags: Seq<Seq<char>>) -> Seq<char> {
    "downloads/"@ + coll + "/"@ + slug_of(join_spec(tags, "-"@))
}

/// The location of the last manifest entry called `name`, if any.
pub open spec fn indexed_spec(files: Seq<KyaniteManifestItem>, name: Seq<char>) -> Option<Seq<char>>
    decreases files.len(),
{
    if files.len() == 0 {
        None
    } else if files.last().name@ == name {
        Some(files.last().file@)
    } else {
        indexed_spec(files.drop_last(), name)
    }
}

/// The first digest, the URL's, with the second, the image data's.
#[derive(Clone, Debug)]
pub struct KyaniteItemMD5 {
    pub url: String,
    pub image: String,
}

/// An image found by a collector.
#[derive(Clone, Debug)]
pub struct KyaniteItem {
    pub url: String,
    pub ext: String,
    pub md5: KyaniteItemMD5,
    pub data: Option<Vec<u8>>,
    /// Bytes downloaded.
    pub size: u64,
    pub tags: Vec<String>,
    pub coll: String,
}

/// What a download run does with an item.
#[derive(Clone, Debug)]
pub enum SaveAction {
    /// Copy the file already on disk at `from` to the item's path.
    Copy { from: String },
    /// Leave the item alone.
    Skip,
    /// Download the item and store it at its path.
    Store,
}

/// What came of saving an item.
#[derive(Clone, Copy, Debug)]
pub enum SaveOutcome {
    /// A copy of a file already on disk was made.
    Inherited,
    /// Nothing was done.
    Skipped,
    /// The item was downloaded and stored.
    Stored,
    /// Downloading or storing the item failed.
    Failed,
}

/// Whether the counters have room for the outcome of saving an item of
/// `size` bytes.
pub open spec fn save_has_room(stats: StatsContainer, outcome: SaveOutcome, size: u64) -> bool {
    match outcome {
        SaveOutcome::Inherited => stats.inherited < u64::MAX,
        SaveOutcome::Skipped => stats.skipped < u64::MAX,
        SaveOutcome::Stored => stats.ok < u64::MAX && stats.size + size <= u64::MAX,
        SaveOutcome::Failed => stats.failed < u64::MAX,
    }
}

/// The counters after saving an item of `size` bytes ended in `outcome`.
pub open spec fn saved_stats(before: StatsContainer, after: StatsContainer, outcome: SaveOutcome, size: u64) -> bool {
    match outcome {
        SaveOutcome::Inherited => before.one_more_inherited(after),
        SaveOutcome::Skipped => before.one_more_skipped(after),
        SaveOutcome::Stored => before.ok < u64::MAX && after == (StatsContainer {
            ok: (before.ok + 1) as u64,
            size: (before.size + size) as u64,
            ..before
        }),
        SaveOutcome::Failed => before.one_more_failed(after),
    }
}

/// The word that reports an outcome.
pub open spec fn save_response(outcome: SaveOutcome) -> Seq<char> {
    match outcome {
        SaveOutcome::Inherited => "INHERITED"@,
        SaveOutcome::Skipped => "SKIPPED"@,
        SaveOutcome::Stored => "DOWNLOADED"@,
        SaveOutcome::Failed => "FAILED"@,
    }
}

/// The name of an item: its URL digest, a dot, its extension.
pub open spec fn name_spec(item: KyaniteItem) -> Seq<char> {
    item.md5.url@ + "."@ + item.ext@
}

/// The path of an item: its folder, a slash, its name.
pub open spec fn path_spec(item: KyaniteItem) -> Seq<char> {
    folder_spec(item.coll@, views(item.tags@)) + "/"@ + name_spec(item)
}

/// Whether `item` is what `KyaniteItem::new` makes of `url`, `tags` and `coll`.
pub open spec fn is_new_item(item: KyaniteItem, url: Seq<char>, tags: Seq<Seq<char>>, coll: Seq<char>) -> bool {
    &&& item.url@ == url
    &&& item.ext@ == ext_spec(url)
    &&& item.md5.url@ == md5_hex_spec(url)
    &&& item.md5.image@ == Seq::<char>::empty()
    &&& item.data is None
    &&& item.size == 0
    &&& views(item.tags@) == tags
    &&& item.coll@ == coll
}

/// Whether an item of `s` has the URL `url`.
pub open spec fn seen_url(s: Seq<KyaniteItem>, url: Seq<char>) -> bool {
    exists|j: int| 0 <= j < s.len() && (#[trigger] s[j]).url@ == url
}

/// `s` without the items whose URL an earlier item has.
pub open spec fn trim_spec(s: Seq<KyaniteItem>) -> Seq<KyaniteItem>
    decreases s.len(),
{
    if s.len() == 0 {
        Seq::empty()
    } else {
        let prev = trim_spec(s.drop_last());
        if seen_url(s.drop_last(), s.last().url@) {
            prev
        } else {
            prev.push(s.last())
        }
    }
}

/// The items of `s` whose flag is set, in order.
pub open spec fn keep_flagged(s: Seq<KyaniteItem>, flags: Seq<bool>) -> Seq<KyaniteItem>
    decreases s.len(),
{
    if s.len() == 0 || flags.len() == 0 {
        Seq::empty()
    } else {
        let prev = keep_flagged(s.drop_last(), flags.drop_last());
        if flags.last() {
            prev.push(s.last())
        } else {
            prev
        }
    }
}

/// The key items are sorted by: their name.
pub open spec fn item_name_key() -> spec_fn(KyaniteItem) -> Seq<char> {
    |it: KyaniteItem| name_spec(it)
}

/// Trimming keeps every URL: a URL is among the trimmed items exactly when
/// it is among the items.
pub proof fn law_trim_keeps_urls(s: Seq<KyaniteItem>, url: Seq<char>)
    ensures
        seen_url(trim_spec(s), url) == seen_url(s, url),
    decreases s.len(),
{
    if s.len() > 0 {
        let prev = s.drop_last();
        law_trim_keeps_urls(prev, url);
        law_trim_keeps_urls(prev, s.last().url@);
        if seen_url(s, url) {
            let j = choose|j: int| 0 <= j < s.len() && (#[trigger] s[j]).url@ == url;
            if j < s.len() - 1 {
                assert(prev[j] == s[j]);
                assert(seen_url(prev, url));
                let t = trim_spec(prev);
                let k = choose|k: int| 0 <= k < t.len() && (#[trigger] t[k]).url@ == url;
                if !seen_url(prev, s.last().url@) {
                    assert(trim_spec(s)[k] == t[k]);
                }
            } else if seen_url(prev, s.last().url@) {
            } else {
                let t = trim_spec(s);
                assert(t[t.len() - 1] == s.last());
            }
        }
        if seen_url(trim_spec(s), url) {
            let t = trim_spec(s);
            let k = choose|k: int| 0 <= k < t.len() && (#[trigger] t[k]).url@ == url;
            if !seen_url(prev, s.last().url@) && k == t.len() - 1 {
                assert(s[s.len() - 1].url@ == url);
            } else {
                assert(trim_spec(prev)[k] == t[k]);
                assert(seen_url(trim_spec(prev), url));
                let j = choose|j: int| 0 <= j < prev.len() && (#[trigger] prev[j]).url@ == url;
                assert(s[j] == prev[j]);
            }
        }
    }
}

/// Trimmed items all have different URLs.
pub proof fn law_trim_distinct(s: Seq<KyaniteItem>)
    ensures
        forall|i: int, j: int|
            0 <= i < j < trim_spec(s).len() ==> (#[trigger] trim_spec(s)[i]).url@ != (
            #[trigger] trim_spec(s)[j]).url@,
    decreases s.len(),
{
    if s.len() > 0 {
        let prev = s.drop_last();
        law_trim_distinct(prev);
        law_trim_keeps_urls(prev, s.last().url@);
        let t = trim_spec(s);
        let tp = trim_spec(prev);
        if !seen_url(prev, s.last().url@) {
            assert forall|i: int, j: int| 0 <= i < j < t.len() implies (#[trigger] t[i]).url@ != (
            #[trigger] t[j]).url@ by {
                if j == t.len() - 1 {
                    assert(t[i] == tp[i]);
                    if t[i].url@ == t[j].url@ {
                        assert(seen_url(tp, s.last().url@));
                    }
                } else {
                    assert(t[i] == tp[i] && t[j] == tp[j]);
                }
            }
        }
    }
}

proof fn lemma_trim_of_distinct(s: Seq<KyaniteItem>)
    requires
        forall|i: int, j: int| 0 <= i < j < s.len() ==> (#[trigger] s[i]).url@ != (#[trigger] s[j]).url@,
    ensures
        trim_spec(s) == s,
    decreases s.len(),
{
    if s.len() > 0 {
        let prev = s.drop_last();
        assert forall|i: int, j: int| 0 <= i < j < prev.len() implies (#[trigger] prev[i]).url@ != (
        #[trigger] prev[j]).url@ by {
            assert(prev[i] == s[i] && prev[j] == s[j]);
        }
        lemma_trim_of_distinct(prev);
        if seen_url(prev, s.last().url@) {
            let j = choose|j: int| 0 <= j < prev.len() && (#[trigger] prev[j]).url@ == s.last().url@;
            assert(s[j] == prev[j]);
            assert(s[j].url@ != s[s.len() - 1].url@);
        }
        assert(prev.push(s.last()) =~= s);
    } else {
        assert(s =~= Seq::<KyaniteItem>::empty());
    }
}

/// Trimming trimmed items changes nothing.
pub proof fn law_trim_idempotent(s: Seq<KyaniteItem>)
    ensures
        trim_spec(trim_spec(s)) == trim_spec(s),
{
    law_trim_distinct(s);
    lemma_trim_of_distinct(trim_spec(s));
}

/// Once an item is stored, the manifest knows it: an entry of its name and
/// path added after any entries makes the item indexed at its path.
pub proof fn law_stored_item_is_indexed(files: Seq<KyaniteManifestItem>, item: KyaniteItem, entry: KyaniteManifestItem)
    requires
        entry.name@ == name_spec(item),
        entry.file@ == path_spec(item),
    ensures
        indexed_spec(files.push(entry), name_spec(item)) == Some(path_spec(item)),
{
    assert(files.push(entry).last() == entry);
}

/// Saving an item counts it exactly once, whatever came of it.
pub proof fn law_save_counts_once(before: StatsContainer, after: StatsContainer, outcome: SaveOutcome, size: u64)
    requires
        saved_stats(before, after, outcome, size),
    ensures
        after.total() == before.total() + 1,
{
}

/// An extension holds neither a `.` nor a `?`.
pub proof fn law_ext_is_plain(url: Seq<char>)
    ensures
        !ext_spec(url).contains('.'),
        !ext_spec(url).contains('?'),
{
    let outer = split_spec(url, '.');
    lemma_split_nonempty(url, '.');
    lemma_split_pieces_free(url, '.');
    let last = outer.last();
    assert(outer[outer.len() - 1] == last);
    lemma_split_nonempty(last, '?');
    lemma_split_pieces_free(last, '?');
    lemma_split_piece_chars(last, '?');
    let e = ext_spec(url);
    if e.contains('.') {
        let j = choose|j: int| 0 <= j < e.len() && e[j] == '.';
        assert(split_spec(last, '?')[0][j] == '.');
        assert(last.contains('.'));
    }
    assert(split_spec(last, '?')[0] == e);
}

/// The lower-case hexadecimal MD5 digest of `data`.
fn md5_hex(data: &[u8]) -> (r: String)
    ensures
        r@ == hex(md5_of(data@)),
        r@.len() == 32,
{
    let digest = md5_digest(data);
    let mut r = String::new();
    push_hex(&mut r, digest.as_slice());
    assert(r@ =~= hex(md5_of(data@)));
    proof {
        lemma_hex_len(md5_of(data@));
    }
    r
}

/// A copy of a list of strings.
pub fn clone_strings(v: &Vec<String>) -> (r: Vec<String>)
    ensures
        r@ == v@,
{
    let mut r: Vec<String> = Vec::new();
    let n = v.len();
    let mut i: usize = 0;
    while i < n
        invariant
            n == v@.len(),
            i <= n,
            r@ == v@.take(i as int),
        decreases n - i,
    {
        r.push(v[i].clone());
        assert(r@ =~= v@.take(i + 1));
        i = i + 1;
    }
    assert(v@.take(n as int) =~= v@);
    r
}

impl KyaniteItem {
    /// An item for the image at `url`, found with `tags` in collection
    /// `coll`; its extension is taken from the URL and its name from the
    /// URL's digest.
    pub fn new(url: String, tags: Vec<String>, coll: String) -> (item: Self)
        ensures
            is_new_item(item, url@, views(tags@), coll@),
            item.md5.url@.len() == 32,
    {
        let pieces = split(url.as_str(), '.');
        proof {
            lemma_split_nonempty(url@, '.');
        }
        let last_piece = &pieces[pieces.len() - 1];
        let last_piece_pieces = split(last_piece.as_str(), '?');
        proof {
            lemma_split_nonempty(last_piece@, '?');
        }
        let clean_last_piece = last_piece_pieces[0].clone();
        let digest = md5_hex(url.as_str().as_bytes());
        KyaniteItem {
            url,
            ext: clean_last_piece,
            md5: KyaniteItemMD5 { url: digest, image: String::new() },
            data: None,
            size: 0,
            tags,
            coll,
        }
    }

    /// The file name of the item: its URL digest, a dot, its extension.
    pub fn name(&self) -> (r: String)
        ensures
            r@ == name_spec(*self),
    {
        let mut r = self.md5.url.clone();
        r.append(".");
        r.append(self.ext.as_str());
        r
    }

    /// Takes in the downloaded bytes of the item: records their digest
    /// beside the URL's, their size, and keeps them.
    pub fn download(&mut self, data: Vec<u8>)
        ensures
            final(self).url == old(self).url,
            final(self).ext == old(self).ext,
            final(self).tags == old(self).tags,
            final(self).coll == old(self).coll,
            final(self).md5.url@ == md5_hex_spec(old(self).url@),
            final(self).md5.image@ == hex(md5_of(data@)),
            final(self).size == data@.len(),
            final(self).data == Some(data),
    {
        let item_url_md5 = md5_hex(self.url.as_str().as_bytes());
        let item_data_md5 = md5_hex(data.as_slice());
        self.md5 = KyaniteItemMD5 { url: item_url_md5, image: item_data_md5 };
        self.size = data.len() as u64;
        self.data = Some(data);
    }

    /// Drops the downloaded bytes.
    pub fn expunge(&mut self)
        ensures
            *final(self) == (KyaniteItem { data: None, ..*old(self) }),
    {
        self.data = None;
    }

    /// The folder the item is stored in: `downloads/<collection>/<slug of the tags joined by ->`.
    pub fn folder(&self) -> (r: String)
        ensures
            r@ == folder_spec(self.coll@, views(self.tags@)),
    {
        let mut r = copy_str("downloads/");
        r.append(self.coll.as_str());
        r.append("/");
        let joined = join(&self.tags, "-");
        let slug = slugify(joined.as_str());
        r.append(slug.as_str());
        r
    }

    /// The path the item is stored at: its folder, a slash, its name.
    pub fn path(&self) -> (r: String)
        ensures
            r@ == path_spec(*self),
    {
        let mut r = self.folder();
        r.append("/");
        let name = self.name();
        r.append(name.as_str());
        r
    }

    /// Where the manifest has a file of this item's name: the location of
    /// the last such entry.
    pub fn indexed(&self, manifest: &KyaniteManifest) -> (r: Option<String>)
        ensures
            match r {
                Some(loc) => indexed_spec(manifest.files@, name_spec(*self)) == Some(loc@),
                None => indexed_spec(manifest.files@, name_spec(*self)) is None,
            },
    {
        let name = self.name();
        let mut location: Option<String> = None;
        let n = manifest.files.len();
        let mut i: usize = 0;
        while i < n
            invariant
                n == manifest.files@.len(),
                i <= n,
                name@ == name_spec(*self),
                match location {
                    Some(loc) => indexed_spec(manifest.files@.take(i as int), name@) == Some(loc@),
                    None => indexed_spec(manifest.files@.take(i as int), name@) is None,
                },
            decreases n - i,
        {
            let ghost prefix = manifest.files@.take(i + 1);
            assert(prefix.drop_last() =~= manifest.files@.take(i as int));
            assert(prefix.last() == manifest.files@[i as int]);
            if manifest.files[i].name == name {
                location = Some(manifest.files[i].file.clone());
            }
            i = i + 1;
        }
        assert(manifest.files@.take(n as int) =~= manifest.files@);
        location
    }

    /// What a download run does with this item, given whether the file the
    /// manifest knows under its name exists (`source_exists`, looked at only
    /// when the manifest has one) and whether its own path exists.
    pub fn plan_save(&self, manifest: &KyaniteManifest, source_exists: bool, destination_exists: bool) -> (a: SaveAction)
        ensures
            match indexed_spec(manifest.files@, name_spec(*self)) {
                Some(src) => if source_exists && !destination_exists {
                    a matches SaveAction::Copy { from } && from@ == src
                } else {
                    a is Skip
                },
                None => if destination_exists {
                    a is Skip
                } else {
                    a is Store
                },
            },
    {
        match self.indexed(manifest) {
            Some(idx) => {
                if source_exists && !destination_exists {
                    SaveAction::Copy { from: idx }
                } else {
                    SaveAction::Skip
                }
            },
            None => {
                if !destination_exists {
                    SaveAction::Store
                } else {
                    SaveAction::Skip
                }
            },
        }
    }

    /// Books the outcome of saving this item: counts it, and, when it was
    /// stored, adds its size to the statistics and an entry for it (its name,
    /// its path, its tags) to the manifest; once a download was tried, the
    /// downloaded bytes are dropped. Returns the word that reports it.
    pub fn save(&mut self, stats: &mut StatsContainer, manifest: &mut KyaniteManifest, outcome: SaveOutcome) -> (response: String)
        requires
            save_has_room(*old(stats), outcome, old(self).size),
        ensures
            saved_stats(*old(stats), *final(stats), outcome, old(self).size),
            response@ == save_response(outcome),
            outcome is Stored ==> final(manifest).files@.len() == old(manifest).files@.len() + 1
                && final(manifest).files@.drop_last() == old(manifest).files@
                && final(manifest).files@.last().name@ == name_spec(*old(self))
                && final(manifest).files@.last().file@ == path_spec(*old(self))
                && final(manifest).files@.last().tags@ == old(self).tags@,
            !(outcome is Stored) ==> final(manifest).files@ == old(manifest).files@,
            (outcome is Stored || outcome is Failed) ==> *final(self) == (KyaniteItem { data: None, ..*old(self) }),
            (outcome is Inherited || outcome is Skipped) ==> *final(self) == *old(self),
    {
        let response: &'static str;
        match outcome {
            SaveOutcome::Inherited => {
                response = stats.add_inherited();
            },
            SaveOutcome::Skipped => {
                response = stats.add_skipped();
            },
            SaveOutcome::Stored => {
                stats.add_size(self.size);
                response = stats.add_ok();
                let item = KyaniteManifestItem::new(self.name(), self.path(), clone_strings(&self.tags));
                manifest.add(item);
                self.expunge();
            },
            SaveOutcome::Failed => {
                response = stats.add_failed();
                self.expunge();
            },
        }
        copy_str(response)
    }

    /// The items without repeated URLs: of items with the same URL only the
    /// first is kept, and the order is kept.
    pub fn trim(items: Vec<Self>) -> (clean: Vec<Self>)
        ensures
            clean@ == trim_spec(items@),
    {
        let ghost orig = items@;
        let n = items.len();
        let mut items = items;
        let mut clean: Vec<Self> = Vec::new();
        let mut i: usize = 0;
        while i < n
            invariant
                n == orig.len(),
                i <= n,
                items@ == orig.skip(i as int),
                clean@ == trim_spec(orig.take(i as int)),
            decreases n - i,
        {
            assert(items@[0] == orig[i as int]);
            let item = items.remove(0);
            assert(items@ =~= orig.skip(i + 1));
            let ghost prefix = orig.take(i as int);
            let ghost next = orig.take(i + 1);
            assert(next.drop_last() =~= prefix);
            assert(next.last() == item);
            proof {
                law_trim_keeps_urls(prefix, item.url@);
            }
            let mut exists = false;
            let m = clean.len();
            let mut j: usize = 0;
            while j < m
                invariant
                    m == clean@.len(),
                    j <= m,
                    exists == seen_url(clean@.take(j as int), item.url@),
                decreases m - j,
            {
                assert(clean@.take(j + 1).drop_last() =~= clean@.take(j as int));
                if item.url == clean[j].url {
                    exists = true;
                    assert(clean@.take(j + 1).last() == clean@[j as int]);
                }
                j = j + 1;
            }
            assert(clean@.take(m as int) =~= clean@);
            if !exists {
                clean.push(item);
            }
            i = i + 1;
        }
        assert(orig.take(n as int) =~= orig);
        clean
    }

    /// The items whose `present` flag is set (the flag of each item says
    /// whether its path exists), in their order.
    pub fn skip(items: Vec<Self>, present: &Vec<bool>) -> (kept: Vec<Self>)
        requires
            present@.len() == items@.len(),
        ensures
            kept@ == keep_flagged(items@, present@),
    {
        let ghost orig = items@;
        let n = items.len();
        let mut items = items;
        let mut kept: Vec<Self> = Vec::new();
        let mut i: usize = 0;
        while i < n
            invariant
                n == orig.len(),
                n == present@.len(),
                i <= n,
                items@ == orig.skip(i as int),
                kept@ == keep_flagged(orig.take(i as int), present@.take(i as int)),
            decreases n - i,
        {
            assert(items@[0] == orig[i as int]);
            let item = items.remove(0);
            assert(items@ =~= orig.skip(i + 1));
            assert(orig.take(i + 1).drop_last() =~= orig.take(i as int));
            assert(present@.take(i + 1).drop_last() =~= present@.take(i as int));
            if present[i] {
                kept.push(item);
            }
            i = i + 1;
        }
        assert(orig.take(n as int) =~= orig);
        assert(present@.take(n as int) =~= present@);
        kept
    }

    /// The items sorted by name; items of the same name keep their order.
    pub fn sort(items: Vec<Self>) -> (sorted: Vec<Self>)
        ensures
            stably_sorted_by(sorted@, items@, item_name_key()),
    {
        let mut keys: Vec<String> = Vec::new();
        let n = items.len();
        let mut i: usize = 0;
        while i < n
            invariant
                n == items@.len(),
                i <= n,
                keys@.len() == i,
                forall|k: int| 0 <= k < i ==> (#[trigger] keys@[k])@ == item_name_key()(items@[k]),
            decreases n - i,
        {
            keys.push(items[i].name());
            i = i + 1;
        }
        sort_by_keys(items, keys, Ghost(item_name_key()))
    }
}

/// Each item is kept or dropped by its own flag: nothing is kept of no
/// items, and adding an item with its flag at the end keeps it, at the end,
/// exactly when its flag is set, leaving the rest as it was.
pub proof fn law_skip_by_own_flag(s: Seq<KyaniteItem>, f: Seq<bool>, x: KyaniteItem, b: bool)
    requires
        s.len() == f.len(),
    ensures
        keep_flagged(Seq::empty(), Seq::empty()) == Seq::<KyaniteItem>::empty(),
        keep_flagged(s.push(x), f.push(b)) == if b {
            keep_flagged(s, f).push(x)
        } else {
            keep_flagged(s, f)
        },
{
    assert(s.push(x).drop_last() =~= s);
    assert(f.push(b).drop_last() =~= f);
}

/// Trimming keeps the first item of each URL: nothing is kept of no items,
/// and an item added at the end is kept, at the end, exactly when no earlier
/// item has its URL, leaving the rest as it was.
pub proof fn law_trim_keeps_first(s: Seq<KyaniteItem>, x: KyaniteItem)
    ensures
        trim_spec(Seq::empty()) == Seq::<KyaniteItem>::empty(),
        trim_spec(s.push(x)) == if (exists|j: int| 0 <= j < s.len() && (#[trigger] s[j]).url@ == x.url@) {
            trim_spec(s)
        } else {
            trim_spec(s).push(x)
        },
{
    assert(s.push(x).drop_last() =~= s);
}

} // verus!
