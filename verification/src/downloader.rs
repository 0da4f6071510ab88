//! A plain downloader: a list of URLs, the folder they go to, and the
//! running statistics of a download run.

use vstd::prelude::*;
use crate::text::{decimal, push_decimal, views, copy_str};
use crate::utils::{get_file_ext, hash_string, file_ext_spec, hash_string_spec};

verus! {

/// What became of one file of a download run.
#[derive(Clone, Copy, Debug)]
pub enum FileState {
    /// The file was already on disk; it is skipped.
    Present,
    /// The file was downloaded and written.
    Stored,
    /// Downloading or writing the file failed.
    Failed,
}

/// The log line of one event of a download run.
pub open spec fn event_line(
    event: Seq<char>,
    current: nat,
    total: nat,
    ok: nat,
    nok: nat,
    skip: nat,
    content: Seq<char>,
) -> Seq<char> {
    event + " | "@ + decimal(current) + "/"@ + decimal(total) + " | [O: "@ + decimal(ok) + " | X: "@
        + decimal(nok) + " | S: "@ + decimal(skip) + "] | "@ + content + " "@
}

/// The event word of a file state.
pub open spec fn event_word(state: FileState) -> Seq<char> {
    match state {
        FileState::Present => "SKIP"@,
        FileState::Stored => "DONE"@,
        FileState::Failed => "FAIL"@,
    }
}

/// Running counts of a download run.
pub struct DownloadStatistics {
    ok: u32,
    nok: u32,
    skip: u32,
    total: u32,
    current: u32,
}

impl DownloadStatistics {
    /// Files downloaded so far.
    pub closed spec fn ok_count(&self) -> nat {
        self.ok as nat
    }

    /// Files that failed so far.
    pub closed spec fn nok_count(&self) -> nat {
        self.nok as nat
    }

    /// Files skipped so far.
    pub closed spec fn skip_count(&self) -> nat {
        self.skip as nat
    }

    /// Files in the run.
    pub closed spec fn total_count(&self) -> nat {
        self.total as nat
    }

    /// Files handled so far.
    pub closed spec fn current_count(&self) -> nat {
        self.current as nat
    }

    /// Every file handled is counted exactly once.
    pub open spec fn consistent(&self) -> bool {
        self.ok_count() + self.nok_count() + self.skip_count() == self.current_count()
    }

    /// Whether `after` is `self` with one more file in `state` counted.
    pub open spec fn records(self, after: Self, state: FileState) -> bool {
        &&& after.current_count() == self.current_count() + 1
        &&& after.total_count() == self.total_count()
        &&& after.ok_count() == self.ok_count() + if state is Stored { 1nat } else { 0nat }
        &&& after.nok_count() == self.nok_count() + if state is Failed { 1nat } else { 0nat }
        &&& after.skip_count() == self.skip_count() + if state is Present { 1nat } else { 0nat }
    }

    /// Whether one more file in `state` can be counted without overflow.
    pub open spec fn has_room(&self, state: FileState) -> bool {
        &&& self.current_count() < u32::MAX
        &&& match state {
            FileState::Present => self.skip_count() < u32::MAX,
            FileState::Stored => self.ok_count() < u32::MAX,
            FileState::Failed => self.nok_count() < u32::MAX,
        }
    }

    /// The log line of counting `content` in `state`: the handled count
    /// already includes it, the per-state counts do not yet.
    pub open spec fn line_for(&self, state: FileState, content: Seq<char>) -> Seq<char> {
        event_line(
            event_word(state),
            self.current_count() + 1,
            self.total_count(),
            self.ok_count(),
            self.nok_count(),
            self.skip_count(),
            content,
        )
    }

    /// Statistics of a run of `total` files, with nothing handled yet.
    pub fn new(total: u32) -> (s: Self)
        ensures
            s.total_count() == total,
            s.current_count() == 0,
            s.ok_count() == 0,
            s.nok_count() == 0,
            s.skip_count() == 0,
    {
        DownloadStatistics { ok: 0, nok: 0, skip: 0, total, current: 0 }
    }

    /// Counts a downloaded file; returns the line to log.
    pub fn add_ok(&mut self, content: &str) -> (line: String)
        requires
            old(self).has_room(FileState::Stored),
        ensures
            old(self).records(*final(self), FileState::Stored),
            line@ == old(self).line_for(FileState::Stored, content@),
    {
        let line = self.add_current("DONE", content);
        self.ok = self.ok + 1;
        line
    }

    /// Counts a failed file; returns the line to log.
    pub fn add_nok(&mut self, content: &str) -> (line: String)
        requires
            old(self).has_room(FileState::Failed),
        ensures
            old(self).records(*final(self), FileState::Failed),
            line@ == old(self).line_for(FileState::Failed, content@),
    {
        let line = self.add_current("FAIL", content);
        self.nok = self.nok + 1;
        line
    }

    /// Counts a skipped file; returns the line to log.
    pub fn add_skip(&mut self, content: &str) -> (line: String)
        requires
            old(self).has_room(FileState::Present),
        ensures
            old(self).records(*final(self), FileState::Present),
            line@ == old(self).line_for(FileState::Present, content@),
    {
        let line = self.add_current("SKIP", content);
        self.skip = self.skip + 1;
        line
    }

    fn add_current(&mut self, event: &str, content: &str) -> (line: String)
        requires
            old(self).current < u32::MAX,
        ensures
            *final(self) == (DownloadStatistics { current: (old(self).current + 1) as u32, ..*old(self) }),
            line@ == event_line(
                event@,
                (old(self).current + 1) as nat,
                old(self).total as nat,
                old(self).ok as nat,
                old(self).nok as nat,
                old(self).skip as nat,
                content@,
            ),
    {
        self.current = self.current + 1;
        self.log_event(event, content)
    }

    fn log_event(&self, event: &str, content: &str) -> (line: String)
        ensures
            line@ == event_line(
                event@,
                self.current as nat,
                self.total as nat,
                self.ok as nat,
                self.nok as nat,
                self.skip as nat,
                content@,
            ),
    {
        let mut line = copy_str(event);
        line.append(" | ");
        push_decimal(&mut line, self.current as u64);
        line.append("/");
        push_decimal(&mut line, self.total as u64);
        line.append(" | [O: ");
        push_decimal(&mut line, self.ok as u64);
        line.append(" | X: ");
        push_decimal(&mut line, self.nok as u64);
        line.append(" | S: ");
        push_decimal(&mut line, self.skip as u64);
        line.append("] | ");
        line.append(content);
        line.append(" ");
        assert(line@ =~= event_line(
            event@,
            self.current as nat,
            self.total as nat,
            self.ok as nat,
            self.nok as nat,
            self.skip as nat,
            content@,
        ));
        line
    }
}

/// Counting a file keeps every handled file counted exactly once.
pub proof fn law_records_keep_consistent(before: DownloadStatistics, after: DownloadStatistics, state: FileState)
    requires
        before.consistent(),
        before.records(after, state),
    ensures
        after.consistent(),
{
}

/// The name a URL's file is stored under: the hash of the URL, a dot, and
/// the URL's extension.
pub open spec fn file_name_spec(url: Seq<char>) -> Seq<char> {
    hash_string_spec(url) + "."@ + file_ext_spec(url)
}

/// A list of URLs to download into one folder.
pub struct Downloader {
    urls: Vec<String>,
    path_base: String,
}

impl Downloader {
    /// The URLs to download.
    pub closed spec fn url_list(&self) -> Seq<Seq<char>> {
        views(self.urls@)
    }

    /// The folder the files go to.
    pub closed spec fn base(&self) -> Seq<char> {
        self.path_base@
    }

    /// A downloader of `items` into the current folder.
    pub fn new(items: Vec<String>) -> (d: Self)
        ensures
            d.url_list() == views(items@),
            d.base() == Seq::<char>::empty(),
    {
        let downloader: Self = Downloader { urls: items, path_base: String::new() };
        downloader
    }

    /// Sets the folder the files go to.
    pub fn set_path(&mut self, path: String)
        ensures
            final(self).url_list() == old(self).url_list(),
            final(self).base() == path@,
    {
        self.path_base = path;
    }

    /// The URLs to download.
    pub fn urls(&self) -> (r: &Vec<String>)
        ensures
            views(r@) == self.url_list(),
    {
        &self.urls
    }

    /// The name the file of the URL at `index` is stored under.
    pub fn file_name(&self, index: usize) -> (r: String)
        requires
            index < self.url_list().len(),
        ensures
            r@ == file_name_spec(self.url_list()[index as int]),
    {
        let url = self.urls[index].as_str();
        let mut name = hash_string(url);
        name.append(".");
        let ext = get_file_ext(url);
        name.append(ext.as_str());
        name
    }

    /// The path the file of the URL at `index` is stored at: the folder, a
    /// slash, and the file's name.
    pub fn file_path(&self, index: usize) -> (r: String)
        requires
            index < self.url_list().len(),
        ensures
            r@ == self.base() + "/"@ + file_name_spec(self.url_list()[index as int]),
    {
        let mut path = self.path_base.clone();
        path.append("/");
        let name = self.file_name(index);
        path.append(name.as_str());
        path
    }

    /// The statistics a download run of these URLs starts with: as many
    /// files as there are URLs (counted in 32 bits), none handled.
    pub fn statistics(&self) -> (s: DownloadStatistics)
        ensures
            s.total_count() == (self.url_list().len() as u32) as nat,
            s.current_count() == 0,
            s.ok_count() == 0,
            s.nok_count() == 0,
            s.skip_count() == 0,
    {
        let n = self.urls.len();
        #[verifier::truncate]
        let total = n as u32;
        DownloadStatistics::new(total)
    }

    /// One step of a download run: the file of the URL at `index` ended in
    /// `state`; counts it under its file name and returns the line to log.
    pub fn download(&self, stats: &mut DownloadStatistics, index: usize, state: FileState) -> (line: String)
        requires
            index < self.url_list().len(),
            old(stats).has_room(state),
        ensures
            old(stats).records(*final(stats), state),
            line@ == old(stats).line_for(state, file_name_spec(self.url_list()[index as int])),
    {
        let name = self.file_name(index);
        match state {
            FileState::Stored => stats.add_ok(name.as_str()),
            FileState::Failed => stats.add_nok(name.as_str()),
            FileState::Present => stats.add_skip(name.as_str()),
        }
    }
}

} // verus!
