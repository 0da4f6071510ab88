//! The manifest: the files already on disk, by name, with where they are.

use vstd::prelude::*;

verus! {

/// One file already on disk.
#[derive(Clone, Debug)]
pub struct KyaniteManifestItem {
    pub name: String,
    pub file: String,
    pub tags: Vec<String>,
}

impl KyaniteManifestItem {
    /// An entry for the file called `name` at `file`, saved for `tags`.
    pub fn new(name: String, file: String, tags: Vec<String>) -> (item: Self)
        ensures
            item.name == name,
            item.file == file,
            item.tags == tags,
    {
        KyaniteManifestItem { name, file, tags }
    }
}

/// Whether `item` is the entry of a file found on disk called `name` at
/// `file`, which records no tags.
pub open spec fn is_found_entry(item: KyaniteManifestItem, name: Seq<char>, file: Seq<char>) -> bool {
    item.name@ == name && item.file@ == file && item.tags@.len() == 0
}

/// The files already on disk.
#[derive(Clone, Debug)]
pub struct KyaniteManifest {
    pub files: Vec<KyaniteManifestItem>,
}

impl KyaniteManifest {
    /// The manifest of the files found on disk, given as (file name, path)
    /// pairs in the order they were found; their entries record no tags.
    pub fn new(found: &Vec<(String, String)>) -> (man: Self)
        ensures
            man.files@.len() == found@.len(),
            forall|k: int|
                0 <= k < found@.len() ==> is_found_entry(
                    #[trigger] man.files@[k],
                    found@[k].0@,
                    found@[k].1@,
                ),
    {
        let mut man = KyaniteManifest { files: Vec::new() };
        let n = found.len();
        let mut i: usize = 0;
        while i < n
            invariant
                n == found@.len(),
                i <= n,
                man.files@.len() == i,
                forall|k: int|
                    0 <= k < i ==> is_found_entry(
                        #[trigger] man.files@[k],
                        found@[k].0@,
                        found@[k].1@,
                    ),
            decreases n - i,
        {
            let name = found[i].0.clone();
            let file = found[i].1.clone();
            let item = KyaniteManifestItem::new(name, file, Vec::new());
            man.add(item);
            i = i + 1;
        }
        man
    }

    /// Records one more file.
    pub fn add(&mut self, item: KyaniteManifestItem)
        ensures
            final(self).files@ == old(self).files@.push(item),
    {
        self.files.push(item);
    }
}

} // verus!
