//! The file cache: a store mapping a physical path to its last known read
//! outcome, revalidated against the filesystem's modification time on every
//! lookup.
//!
//! Entries are replaced whole, never mutated in place, so a reader never
//! observes a half-updated entry.  The cache never evicts: growth is bounded
//! by the number of distinct physical paths ever requested, which is accepted
//! for a bounded static-asset tree.
//!
//! The store itself is single-threaded; a server shares it behind a
//! reader/writer lock and performs the file reads itself, handing their
//! outcome to [`FileCache::read_file`].

use vstd::prelude::*;
use vstd::pervasive::VecAdditionalExecFns;
use vstd::string::StringExecFns;

use crate::strutil::str_eq;

verus! {

/// Files at most this many bytes long are held in memory; larger files are
/// re-opened and streamed from disk on every response.
pub const FILE_SYSTEM_THRESHOLD: u64 = 65536;

/// How a found file's bytes are served.
pub enum FileCacheEntryContent {
    /// The file's bytes, held in memory.
    Cached(Vec<u8>),
    /// The file is served by reopening it on disk.
    File,
}

/// The ghost shape of [`FileCacheEntryContent`].
pub enum ContentView {
    /// The file's bytes, held in memory.
    Cached(Seq<u8>),
    /// The file is served by reopening it on disk.
    File,
}

impl View for FileCacheEntryContent {
    type V = ContentView;

    open spec fn view(&self) -> ContentView {
        match *self {
            FileCacheEntryContent::Cached(ref b) => ContentView::Cached(b@),
            FileCacheEntryContent::File => ContentView::File,
        }
    }
}

/// The ghost shape of a found entry.
pub struct FoundView {
    /// How the bytes are served.
    pub content: ContentView,
    /// The MIME type derived from the logical path's extension.
    pub content_type: Seq<char>,
    /// The exact byte length of the resource.
    pub content_length: u64,
    /// The filesystem modification time, in seconds since the Unix epoch,
    /// at the moment of load.
    pub last_modified: u64,
}

/// One cached read outcome for a physical path.
pub enum FileCacheEntry {
    /// The file existed and was read.
    Found {
        /// How the bytes are served.
        content: FileCacheEntryContent,
        /// The MIME type derived from the logical path's extension.
        content_type: String,
        /// The exact byte length of the resource.
        content_length: u64,
        /// The filesystem modification time, in seconds since the Unix
        /// epoch, at the moment of load.
        last_modified: u64,
    },
    /// The file did not exist or could not be read.
    NotFound,
}

/// The ghost shape of [`FileCacheEntry`].
pub enum EntryView {
    /// The file existed and was read.
    Found(FoundView),
    /// The file did not exist or could not be read.
    NotFound,
}

impl View for FileCacheEntry {
    type V = EntryView;

    open spec fn view(&self) -> EntryView {
        match *self {
            FileCacheEntry::Found {
                ref content,
                ref content_type,
                content_length,
                last_modified,
            } => EntryView::Found(
                FoundView {
                    content: content@,
                    content_type: content_type@,
                    content_length,
                    last_modified,
                },
            ),
            FileCacheEntry::NotFound => EntryView::NotFound,
        }
    }
}

/// An entry is internally consistent: a memory-resident entry's recorded
/// length is the exact length of its bytes.
pub open spec fn entry_wf(e: EntryView) -> bool {
    match e {
        EntryView::Found(f) => match f.content {
            ContentView::Cached(b) => f.content_length == b.len(),
            ContentView::File => true,
        },
        EntryView::NotFound => true,
    }
}

/// An exact byte-for-byte copy of a vector.
pub(crate) fn copy_bytes(v: &Vec<u8>) -> (r: Vec<u8>)
    ensures
        r@ == v@,
{
    let mut r: Vec<u8> = Vec::new();
    let n = v.len();
    let mut i: usize = 0;
    while i < n
        invariant
            n == v@.len(),
            0 <= i <= n,
            r@ == v@.take(i as int),
        decreases n - i,
    {
        r.push(v[i]);
        proof {
            assert(r@ =~= v@.take(i + 1));
        }
        i = i + 1;
    }
    proof {
        assert(v@.take(n as int) =~= v@);
    }
    r
}

impl FileCacheEntryContent {
    /// An identical copy of the content.
    pub fn duplicate(&self) -> (r: Self)
        ensures
            r@ == self@,
    {
        match self {
            FileCacheEntryContent::Cached(b) => FileCacheEntryContent::Cached(copy_bytes(b)),
            FileCacheEntryContent::File => FileCacheEntryContent::File,
        }
    }
}

impl FileCacheEntry {
    /// An identical copy of the entry.
    pub fn duplicate(&self) -> (r: Self)
        ensures
            r@ == self@,
    {
        match self {
            FileCacheEntry::Found { content, content_type, content_length, last_modified } => {
                FileCacheEntry::Found {
                    content: content.duplicate(),
                    content_type: content_type.clone(),
                    content_length: *content_length,
                    last_modified: *last_modified,
                }
            },
            FileCacheEntry::NotFound => FileCacheEntry::NotFound,
        }
    }
}

/// The guess of `mime_guess` for a path: the first known MIME type for the
/// path's extension, if any.
pub uninterp spec fn mime_guess_of(path: Seq<char>) -> Option<Seq<char>>;

/// Relies on `mime_guess::from_path(..).first_raw()`: the first registered
/// MIME type for the path's filename extension, looked up in a fixed table,
/// so the result depends on the path alone.
#[verifier::external_body]
fn guess_mime(path: &str) -> (r: Option<&'static str>)
    ensures
        match r {
            Some(m) => mime_guess_of(path@) == Some(m@),
            None => mime_guess_of(path@) is None,
        },
{
    mime_guess::from_path(path).first_raw()
}

/// The MIME type served for a logical path: the guess for its extension, or
/// the generic binary type when the extension is unknown.
pub open spec fn mime_or_default(path: Seq<char>) -> Seq<char> {
    match mime_guess_of(path) {
        Some(m) => m,
        None => "application/octet-stream"@,
    }
}

/// What the server did with the file behind a candidate before handing the
/// outcome to the cache.
pub enum FileReadOutcome {
    /// The file could not be opened.
    OpenFailed,
    /// The file was opened and is over the in-memory threshold: it was not
    /// read, and will be served from disk.
    NotRead,
    /// The file was opened and read fully into memory.
    Bytes(Vec<u8>),
    /// The file was opened but reading it failed.
    ReadFailed,
}

/// The ghost shape of [`FileReadOutcome`].
pub enum ReadOutcomeView {
    /// The file could not be opened.
    OpenFailed,
    /// The file was opened but not read.
    NotRead,
    /// The file's bytes.
    Bytes(Seq<u8>),
    /// The file was opened but reading it failed.
    ReadFailed,
}

impl View for FileReadOutcome {
    type V = ReadOutcomeView;

    open spec fn view(&self) -> ReadOutcomeView {
        match *self {
            FileReadOutcome::OpenFailed => ReadOutcomeView::OpenFailed,
            FileReadOutcome::NotRead => ReadOutcomeView::NotRead,
            FileReadOutcome::Bytes(ref b) => ReadOutcomeView::Bytes(b@),
            FileReadOutcome::ReadFailed => ReadOutcomeView::ReadFailed,
        }
    }
}

/// The entry recorded for a read outcome: a failure is recorded as a
/// negative entry; bytes read whole are held in memory with their exact
/// length; an over-threshold file is marked to be served from disk with the
/// length the filesystem reported.
pub open spec fn spec_read_entry(
    outcome: ReadOutcomeView,
    content_type_path: Seq<char>,
    content_length: u64,
    modified: u64,
) -> EntryView {
    match outcome {
        ReadOutcomeView::OpenFailed => EntryView::NotFound,
        ReadOutcomeView::ReadFailed => EntryView::NotFound,
        ReadOutcomeView::Bytes(b) => EntryView::Found(
            FoundView {
                content: ContentView::Cached(b),
                content_type: mime_or_default(content_type_path),
                content_length: b.len() as u64,
                last_modified: modified,
            },
        ),
        ReadOutcomeView::NotRead => EntryView::Found(
            FoundView {
                content: ContentView::File,
                content_type: mime_or_default(content_type_path),
                content_length,
                last_modified: modified,
            },
        ),
    }
}

/// Whether a lookup must (re)load from disk: yes when nothing is cached,
/// when the cached entry is negative (a file that previously did not exist
/// but now has metadata must be read), or when the file on disk is newer
/// than the cached entry.
pub open spec fn spec_needs_load(cached: Option<EntryView>, fs_modified: u64) -> bool {
    match cached {
        None => true,
        Some(EntryView::NotFound) => true,
        Some(EntryView::Found(f)) => fs_modified > f.last_modified,
    }
}

/// Whether a lookup must (re)load the file from disk before serving.
pub fn needs_load(cached: Option<&FileCacheEntry>, fs_modified: u64) -> (r: bool)
    ensures
        r == spec_needs_load(
            match cached {
                Some(e) => Some(e@),
                None => None,
            },
            fs_modified,
        ),
{
    match cached {
        None => true,
        Some(e) => match e {
            FileCacheEntry::NotFound => true,
            FileCacheEntry::Found { last_modified, .. } => fs_modified > *last_modified,
        },
    }
}

/// Whether a file of the given length is held in memory rather than served
/// from disk.
pub fn should_cache_in_memory(content_length: u64) -> (r: bool)
    ensures
        r == (content_length <= FILE_SYSTEM_THRESHOLD),
{
    content_length <= FILE_SYSTEM_THRESHOLD
}

/// The map described by an association list, later pairs shadowing earlier
/// ones.
pub open spec fn map_of(s: Seq<(String, FileCacheEntry)>) -> Map<Seq<char>, EntryView>
    decreases s.len(),
{
    if s.len() == 0 {
        Map::empty()
    } else {
        map_of(s.drop_last()).insert(s.last().0@, s.last().1@)
    }
}

/// The keys of `map_of` are exactly the keys of the list.
proof fn lemma_map_of_keys(s: Seq<(String, FileCacheEntry)>)
    ensures
        forall|k: Seq<char>|
            map_of(s).contains_key(k) <==> exists|i: int| 0 <= i < s.len() && s[i].0@ == k,
    decreases s.len(),
{
    if s.len() > 0 {
        lemma_map_of_keys(s.drop_last());
        assert forall|k: Seq<char>| map_of(s).contains_key(k) implies exists|i: int|
            0 <= i < s.len() && s[i].0@ == k by {
            if k == s.last().0@ {
                assert(s[s.len() - 1].0@ == k);
            } else {
                assert(map_of(s.drop_last()).contains_key(k));
                let i = choose|i: int| 0 <= i < s.drop_last().len() && s.drop_last()[i].0@ == k;
                assert(s.drop_last()[i] == s[i]);
                assert(s[i].0@ == k);
            }
        }
        assert forall|k: Seq<char>|
            (exists|i: int| 0 <= i < s.len() && s[i].0@ == k) implies map_of(s).contains_key(k) by {
            let i = choose|i: int| 0 <= i < s.len() && s[i].0@ == k;
            assert(map_of(s) == map_of(s.drop_last()).insert(s.last().0@, s.last().1@));
            if i < s.len() - 1 {
                assert(s.drop_last()[i].0@ == k);
                assert(map_of(s.drop_last()).contains_key(k));
            }
        }
    }
}

/// The value of `map_of` at a key held at position `i`, when no later
/// position holds the same key.
proof fn lemma_map_of_value(s: Seq<(String, FileCacheEntry)>, i: int)
    requires
        0 <= i < s.len(),
        forall|j: int| i < j < s.len() ==> s[j].0@ != s[i].0@,
    ensures
        map_of(s).contains_key(s[i].0@),
        map_of(s)[s[i].0@] == s[i].1@,
    decreases s.len(),
{
    if i == s.len() - 1 {
    } else {
        lemma_map_of_value(s.drop_last(), i);
        assert(s.drop_last()[i] == s[i]);
        assert(s.last().0@ != s[i].0@);
    }
}

/// Replacing the pair at position `i` with one carrying the same key turns
/// the map of the list into the map with that key overwritten, when no later
/// position holds the key.
proof fn lemma_map_of_update(
    s: Seq<(String, FileCacheEntry)>,
    i: int,
    p: (String, FileCacheEntry),
)
    requires
        0 <= i < s.len(),
        p.0@ == s[i].0@,
        forall|j: int| i < j < s.len() ==> s[j].0@ != s[i].0@,
    ensures
        map_of(s.update(i, p)) == map_of(s).insert(p.0@, p.1@),
    decreases s.len(),
{
    if i == s.len() - 1 {
        assert(s.update(i, p).drop_last() =~= s.drop_last());
        assert(map_of(s.update(i, p)) =~= map_of(s).insert(p.0@, p.1@));
    } else {
        lemma_map_of_update(s.drop_last(), i, p);
        assert(s.update(i, p).drop_last() =~= s.drop_last().update(i, p));
        assert(s.update(i, p).last() == s.last());
        assert(map_of(s.update(i, p)) =~= map_of(s).insert(p.0@, p.1@));
    }
}

/// A concurrent-sharing-friendly store from physical path to last read
/// outcome.  A server wraps it in a reader/writer lock; lookups borrow, and
/// a (re)load replaces the entry whole.
pub struct FileCache {
    entries: Vec<(String, FileCacheEntry)>,
}

impl View for FileCache {
    type V = Map<Seq<char>, EntryView>;

    closed spec fn view(&self) -> Map<Seq<char>, EntryView> {
        map_of(self.entries@)
    }
}

impl Default for FileCache {
    /// An empty cache.
    fn default() -> (r: Self)
        ensures
            r@ == Map::<Seq<char>, EntryView>::empty(),
            r.wf(),
    {
        FileCache::new()
    }
}

impl FileCache {
    /// The store is well-formed: it holds each path at most once, and every
    /// entry is internally consistent.  Every store reachable through this
    /// interface is well-formed.
    pub closed spec fn wf(&self) -> bool {
        &&& forall|i: int, j: int|
            0 <= i < j < self.entries@.len() ==> self.entries@[i].0@ != self.entries@[j].0@
        &&& forall|i: int| 0 <= i < self.entries@.len() ==> entry_wf(#[trigger] self.entries@[i].1@)
    }

    /// An empty cache.
    pub fn new() -> (r: Self)
        ensures
            r@ == Map::<Seq<char>, EntryView>::empty(),
            r.wf(),
    {
        FileCache { entries: Vec::new() }
    }

    /// The cached entry for a physical path, if any.  Every entry handed out
    /// is internally consistent.
    pub fn get(&self, path: &str) -> (r: Option<&FileCacheEntry>)
        requires
            self.wf(),
        ensures
            match r {
                Some(e) => self@.contains_key(path@) && self@[path@] == e@ && entry_wf(e@),
                None => !self@.contains_key(path@),
            },
    {
        proof {
            lemma_map_of_keys(self.entries@);
        }
        let n = self.entries.len();
        let mut i: usize = 0;
        while i < n
            invariant
                n == self.entries@.len(),
                0 <= i <= n,
                forall|k: int| 0 <= k < i ==> self.entries@[k].0@ != path@,
                self.wf(),
            decreases n - i,
        {
            if str_eq(self.entries[i].0.as_str(), path) {
                proof {
                    lemma_map_of_value(self.entries@, i as int);
                }
                return Some(&self.entries[i].1);
            }
            i = i + 1;
        }
        proof {
            lemma_map_of_keys(self.entries@);
        }
        None
    }

    /// Stores an entry for a path, replacing any previous one.
    fn set(&mut self, path: &str, entry: FileCacheEntry)
        requires
            old(self).wf(),
            entry_wf(entry@),
        ensures
            final(self).wf(),
            final(self)@ == old(self)@.insert(path@, entry@),
    {
        let ghost s0 = old(self).entries@;
        let ghost e0 = entry@;
        let n = self.entries.len();
        let mut i: usize = 0;
        while i < n
            invariant
                s0 == old(self).entries@,
                self.entries@ == s0,
                self.wf(),
                entry@ == e0,
                entry_wf(e0),
                n == s0.len(),
                0 <= i <= n,
                forall|k: int| 0 <= k < i ==> s0[k].0@ != path@,
            decreases n - i,
        {
            if str_eq(self.entries[i].0.as_str(), path) {
                let pair = (String::from_str(path), entry);
                proof {
                    lemma_map_of_update(s0, i as int, pair);
                }
                self.entries.set(i, pair);
                proof {
                    let s1 = self.entries@;
                    assert(s1 == s0.update(i as int, pair));
                    assert(map_of(s1) == map_of(s0).insert(path@, e0));
                    assert forall|a: int, b: int| 0 <= a < b < s1.len() implies s1[a].0@
                        != s1[b].0@ by {
                        assert(s1[a].0@ == s0[a].0@);
                        assert(s1[b].0@ == s0[b].0@);
                    }
                    assert forall|k: int| 0 <= k < s1.len() implies entry_wf(
                        #[trigger] s1[k].1@,
                    ) by {
                        if k != i {
                            assert(s1[k] == s0[k]);
                        }
                    }
                }
                return ;
            }
            i = i + 1;
        }
        self.entries.push((String::from_str(path), entry));
        proof {
            let s1 = self.entries@;
            assert(s1.drop_last() =~= s0);
            assert forall|a: int, b: int| 0 <= a < b < s1.len() implies s1[a].0@ != s1[b].0@ by {
                if b < s1.len() - 1 {
                    assert(s1[a] == s0[a]);
                    assert(s1[b] == s0[b]);
                } else {
                    assert(s1[a] == s0[a]);
                    assert(s1[b].0@ == path@);
                }
            }
            assert forall|k: int| 0 <= k < s1.len() implies entry_wf(#[trigger] s1[k].1@) by {
                if k < s1.len() - 1 {
                    assert(s1[k] == s0[k]);
                }
            }
        }
    }

    /// Records the outcome of reading a physical path and returns the entry
    /// now stored for it.
    ///
    /// A failure to open or read is recorded as a negative entry; bytes read
    /// whole are held in memory; an over-threshold file is marked to be
    /// served by reopening it.  The MIME type is derived once, from the
    /// logical path's extension, defaulting to the generic binary type.
    pub fn read_file(
        &mut self,
        content_path: &str,
        content_type_path: &str,
        content_length: u64,
        modified: u64,
        outcome: FileReadOutcome,
    ) -> (entry: FileCacheEntry)
        requires
            old(self).wf(),
        ensures
            final(self).wf(),
            entry@ == spec_read_entry(outcome@, content_type_path@, content_length, modified),
            entry_wf(entry@),
            final(self)@ == old(self)@.insert(content_path@, entry@),
    {
        let entry = match outcome {
            FileReadOutcome::OpenFailed => FileCacheEntry::NotFound,
            FileReadOutcome::ReadFailed => FileCacheEntry::NotFound,
            FileReadOutcome::Bytes(bytes) => {
                let content_type = match guess_mime(content_type_path) {
                    Some(m) => String::from_str(m),
                    None => String::from_str("application/octet-stream"),
                };
                let len = bytes.len() as u64;
                FileCacheEntry::Found {
                    content: FileCacheEntryContent::Cached(bytes),
                    content_type,
                    content_length: len,
                    last_modified: modified,
                }
            },
            FileReadOutcome::NotRead => {
                let content_type = match guess_mime(content_type_path) {
                    Some(m) => String::from_str(m),
                    None => String::from_str("application/octet-stream"),
                };
                FileCacheEntry::Found {
                    content: FileCacheEntryContent::File,
                    content_type,
                    content_length,
                    last_modified: modified,
                }
            },
        };
        let stored = entry.duplicate();
        self.set(content_path, stored);
        entry
    }
}

} // verus!
