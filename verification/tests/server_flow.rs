//! The candidate loop as the surrounding server runs it, against a
//! simulated directory tree.

use std::collections::HashMap;

use srvr::collect_paths_to_try;
use srvr::decode_request_path;
use srvr::file_cache::needs_load;
use srvr::file_cache::should_cache_in_memory;
use srvr::respond_with_entry;
use srvr::ClientEncodingSupport;
use srvr::FileCache;
use srvr::FileReadOutcome;
use srvr::HttpResponse;
use srvr::ResponseBody;

struct FakeFile {
    bytes: Vec<u8>,
    modified: u64,
}

struct FakeTree {
    files: HashMap<String, FakeFile>,
}

impl FakeTree {
    fn new(files: Vec<(&str, &[u8], u64)>) -> Self {
        FakeTree {
            files: files
                .into_iter()
                .map(|(p, b, m)| (p.to_string(), FakeFile { bytes: b.to_vec(), modified: m }))
                .collect(),
        }
    }
}

/// One request, run the way the server runs it: decode and validate the
/// path, collect the candidates, and for each candidate check the metadata,
/// consult the cache, (re)load when needed, and build the response.
fn handle(
    cache: &mut FileCache,
    tree: &FakeTree,
    accept_encoding: Option<&str>,
    raw_path: &str,
    if_modified_since: Option<u64>,
    range: Option<&str>,
    head: bool,
) -> HttpResponse {
    let logical = match decode_request_path(raw_path) {
        Some(p) => p,
        None => return srvr::bad_request_response(),
    };
    let support = ClientEncodingSupport::from_header_map(accept_encoding);
    let range = srvr::parse_range_header(range);
    let candidates = collect_paths_to_try(&support, "dist", "dist/index.html", raw_path, &logical);
    for candidate in &candidates {
        let content_path = candidate.content_path();
        let file = match tree.files.get(&content_path) {
            Some(f) => f,
            None => continue,
        };
        let must_load = needs_load(cache.get(&content_path), file.modified);
        let entry = if must_load {
            let outcome = if should_cache_in_memory(file.bytes.len() as u64) {
                FileReadOutcome::Bytes(file.bytes.clone())
            } else {
                FileReadOutcome::NotRead
            };
            cache.read_file(
                &content_path,
                &candidate.path(),
                file.bytes.len() as u64,
                file.modified,
                outcome,
            )
        } else {
            cache.get(&content_path).unwrap().duplicate()
        };
        match respond_with_entry(
            &entry,
            candidate.encoding(),
            candidate.cache_control(),
            if_modified_since,
            range,
            head,
        ) {
            Some(response) => return response,
            None => continue,
        }
    }
    srvr::not_found_response()
}

fn body_bytes(r: &HttpResponse) -> &[u8] {
    match &r.body {
        ResponseBody::Bytes(b) => b,
        _ => panic!("expected an in-memory body"),
    }
}

#[test]
fn exact_match_with_best_compression_wins() {
    let tree = FakeTree::new(vec![
        ("dist/app.js", b"plain", 10),
        ("dist/app.js.gz", b"gz", 10),
        ("dist/app.js.br", b"br", 10),
        ("dist/index.html", b"index", 10),
    ]);
    let mut cache = FileCache::new();
    let r = handle(&mut cache, &tree, Some("br, gzip"), "/app.js", None, None, false);
    assert_eq!(r.status, 200);
    assert_eq!(r.content_encoding, Some("br"));
    assert_eq!(body_bytes(&r), b"br");
    assert_eq!(r.content_type.as_deref(), Some("text/javascript"));

    // Without Brotli support, the Gzip sibling wins; never the other way.
    let r = handle(&mut cache, &tree, Some("gzip"), "/app.js", None, None, false);
    assert_eq!(r.content_encoding, Some("gzip"));
    assert_eq!(body_bytes(&r), b"gz");

    // Without any declared encoding, the plain file is served.
    let r = handle(&mut cache, &tree, None, "/app.js", None, None, false);
    assert_eq!(r.content_encoding, None);
    assert_eq!(body_bytes(&r), b"plain");
}

#[test]
fn unmatched_route_falls_back_to_document() {
    let tree = FakeTree::new(vec![
        ("dist/index.html", b"<html>app</html>", 10),
        ("dist/index.html.br", b"br-index", 10),
    ]);
    let mut cache = FileCache::new();

    // With an encoded fallback variant served, the response is marked no-cache.
    let r = handle(&mut cache, &tree, Some("br"), "/does/not/exist", None, None, false);
    assert_eq!(r.status, 200);
    assert_eq!(r.content_encoding, Some("br"));
    assert_eq!(r.cache_control, Some("no-cache"));
    assert_eq!(body_bytes(&r), b"br-index");

    // The plain fallback carries no cache-control override.
    let r = handle(&mut cache, &tree, None, "/also/missing", None, None, false);
    assert_eq!(r.status, 200);
    assert_eq!(r.cache_control, None);
    assert_eq!(body_bytes(&r), b"<html>app</html>");
}

#[test]
fn nothing_at_all_is_not_found() {
    let tree = FakeTree::new(vec![]);
    let mut cache = FileCache::new();
    let r = handle(&mut cache, &tree, None, "/x", None, None, false);
    assert_eq!(r.status, 404);
}

#[test]
fn traversal_is_rejected_without_filesystem_access() {
    // The tree pretends the secret exists; the handler must not even look.
    let tree = FakeTree::new(vec![("secret", b"top", 10)]);
    let mut cache = FileCache::new();
    let r = handle(&mut cache, &tree, None, "/../secret", None, None, false);
    assert_eq!(r.status, 400);
    let r = handle(&mut cache, &tree, None, "/%2e%2e/secret", None, None, false);
    assert_eq!(r.status, 400);
}

#[test]
fn modified_file_is_served_fresh() {
    let mut tree = FakeTree::new(vec![("dist/a.txt", b"old contents", 100)]);
    let mut cache = FileCache::new();
    let r = handle(&mut cache, &tree, None, "/a.txt", None, None, false);
    assert_eq!(body_bytes(&r), b"old contents");

    // The file changes on disk afterward.
    tree.files.insert(
        "dist/a.txt".to_string(),
        FakeFile { bytes: b"new contents".to_vec(), modified: 101 },
    );
    let r = handle(&mut cache, &tree, None, "/a.txt", None, None, false);
    assert_eq!(body_bytes(&r), b"new contents");
}

#[test]
fn conditional_and_range_through_the_loop() {
    let bytes: Vec<u8> = (0..500u32).map(|i| (i % 251) as u8).collect();
    let tree = FakeTree::new(vec![("dist/big.bin", &bytes[..], 784111777)]);
    let mut cache = FileCache::new();

    let r = handle(&mut cache, &tree, None, "/big.bin", Some(784111777), None, false);
    assert_eq!(r.status, 304);
    assert_eq!(r.content_length, Some(0));
    assert_eq!(
        r.last_modified.as_deref(),
        Some("Sun, 06 Nov 1994 08:49:37 GMT")
    );

    let r = handle(&mut cache, &tree, None, "/big.bin", None, Some("bytes=0-99"), false);
    assert_eq!(r.status, 206);
    assert_eq!(r.content_range.as_deref(), Some("bytes 0-99/500"));
    assert_eq!(r.content_length, Some(100));
    assert_eq!(body_bytes(&r), &bytes[0..100]);

    let r = handle(&mut cache, &tree, None, "/big.bin", None, Some("bytes=1000-2000"), false);
    assert_eq!(r.status, 416);
    assert!(matches!(r.body, ResponseBody::Empty));
}

#[test]
fn head_through_the_loop() {
    let tree = FakeTree::new(vec![("dist/a.txt", b"abc", 10)]);
    let mut cache = FileCache::new();
    let r = handle(&mut cache, &tree, None, "/a.txt", None, None, true);
    assert_eq!(r.status, 200);
    assert_eq!(r.content_length, Some(3));
    assert!(matches!(r.body, ResponseBody::Empty));
}
