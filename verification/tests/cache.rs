use srvr::file_cache::needs_load;
use srvr::FileCache;
use srvr::FileCacheEntry;
use srvr::FileCacheEntryContent;
use srvr::FileReadOutcome;

fn entry_bytes(entry: &FileCacheEntry) -> &[u8] {
    match entry {
        FileCacheEntry::Found {
            content: FileCacheEntryContent::Cached(b),
            ..
        } => b,
        _ => panic!("expected a memory-resident entry"),
    }
}

#[test]
fn read_file_caches_bytes_and_mime() {
    let mut cache = FileCache::new();
    let entry = cache.read_file(
        "dist/index.html",
        "dist/index.html",
        11,
        1000,
        FileReadOutcome::Bytes(b"hello world".to_vec()),
    );
    match &entry {
        FileCacheEntry::Found {
            content_type,
            content_length,
            last_modified,
            ..
        } => {
            assert_eq!(content_type, "text/html");
            assert_eq!(*content_length, 11);
            assert_eq!(*last_modified, 1000);
        }
        FileCacheEntry::NotFound => panic!("expected a found entry"),
    }
    assert_eq!(entry_bytes(&entry), b"hello world");

    let cached = cache.get("dist/index.html").unwrap();
    assert_eq!(entry_bytes(cached), b"hello world");
}

#[test]
fn unknown_extension_defaults_to_octet_stream() {
    let mut cache = FileCache::new();
    let entry = cache.read_file(
        "data/blob.weirdext",
        "data/blob.weirdext",
        3,
        0,
        FileReadOutcome::Bytes(vec![1, 2, 3]),
    );
    match &entry {
        FileCacheEntry::Found { content_type, .. } => {
            assert_eq!(content_type, "application/octet-stream");
        }
        FileCacheEntry::NotFound => panic!("expected a found entry"),
    }
}

#[test]
fn mime_comes_from_logical_path_not_physical() {
    let mut cache = FileCache::new();
    let entry = cache.read_file(
        "dist/app.js.br",
        "dist/app.js",
        2,
        0,
        FileReadOutcome::Bytes(vec![0, 1]),
    );
    match &entry {
        FileCacheEntry::Found { content_type, .. } => {
            // Derived from the logical path's extension, not from `.br`.
            assert_eq!(content_type, "text/javascript");
        }
        FileCacheEntry::NotFound => panic!("expected a found entry"),
    }
}

#[test]
fn failures_are_cached_as_negative_entries() {
    let mut cache = FileCache::new();
    let entry = cache.read_file("gone", "gone", 0, 0, FileReadOutcome::OpenFailed);
    assert!(matches!(entry, FileCacheEntry::NotFound));
    assert!(matches!(
        cache.get("gone"),
        Some(FileCacheEntry::NotFound)
    ));
    let entry = cache.read_file("torn", "torn", 5, 0, FileReadOutcome::ReadFailed);
    assert!(matches!(entry, FileCacheEntry::NotFound));
}

#[test]
fn over_threshold_files_are_served_from_disk() {
    let mut cache = FileCache::new();
    let entry = cache.read_file(
        "dist/video.mp4",
        "dist/video.mp4",
        1_000_000,
        7,
        FileReadOutcome::NotRead,
    );
    match &entry {
        FileCacheEntry::Found {
            content,
            content_length,
            ..
        } => {
            assert!(matches!(content, FileCacheEntryContent::File));
            assert_eq!(*content_length, 1_000_000);
        }
        FileCacheEntry::NotFound => panic!("expected a found entry"),
    }
}

#[test]
fn fresh_entries_are_served_without_reload() {
    let mut cache = FileCache::new();
    cache.read_file("f", "f", 1, 100, FileReadOutcome::Bytes(vec![9]));
    // Same or older file on disk: the cached entry stands.
    assert!(!needs_load(cache.get("f"), 100));
    assert!(!needs_load(cache.get("f"), 50));
}

#[test]
fn stale_entry_is_reloaded_with_new_content() {
    let mut cache = FileCache::new();
    cache.read_file("f", "f", 3, 100, FileReadOutcome::Bytes(b"old".to_vec()));

    // The file on disk advanced: the lookup must reload.
    assert!(needs_load(cache.get("f"), 101));
    cache.read_file("f", "f", 3, 101, FileReadOutcome::Bytes(b"new".to_vec()));

    let cached = cache.get("f").unwrap();
    assert_eq!(entry_bytes(cached), b"new");
}

#[test]
fn negative_entry_is_always_reloaded() {
    let mut cache = FileCache::new();
    cache.read_file("f", "f", 0, 100, FileReadOutcome::OpenFailed);
    // A file that previously did not exist but now has metadata must be read.
    assert!(needs_load(cache.get("f"), 100));
    assert!(needs_load(cache.get("f"), 0));
}

#[test]
fn missing_entry_needs_load() {
    let cache = FileCache::new();
    assert!(needs_load(cache.get("nowhere"), 0));
}

#[test]
fn duplicate_loads_agree() {
    // Two racing first-time loads of the same path read the same bytes; in
    // whichever order their installs land, the entry served afterwards is
    // whole and identical.
    let mut cache = FileCache::new();
    let first = cache.read_file("f", "f", 4, 10, FileReadOutcome::Bytes(b"same".to_vec()));
    let second = cache.read_file("f", "f", 4, 10, FileReadOutcome::Bytes(b"same".to_vec()));
    assert_eq!(entry_bytes(&first), entry_bytes(&second));
    assert_eq!(entry_bytes(cache.get("f").unwrap()), b"same");
}

#[test]
fn threshold_decision() {
    assert!(srvr::file_cache::should_cache_in_memory(0));
    assert!(srvr::file_cache::should_cache_in_memory(65536));
    assert!(!srvr::file_cache::should_cache_in_memory(65537));
}
