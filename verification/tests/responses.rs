use srvr::build_found_response;
use srvr::dates::parse_if_modified_since;
use srvr::parse_range_header;
use srvr::process_range;
use srvr::respond_with_entry;
use srvr::Encoding;
use srvr::FileCacheEntry;
use srvr::FileCacheEntryContent;
use srvr::HttpResponse;
use srvr::RangeSpec;
use srvr::ResponseBody;

fn entry_of(bytes: Vec<u8>, content_type: &str, last_modified: u64) -> FileCacheEntry {
    FileCacheEntry::Found {
        content_length: bytes.len() as u64,
        content: FileCacheEntryContent::Cached(bytes),
        content_type: content_type.to_string(),
        last_modified,
    }
}

fn body_bytes(r: &HttpResponse) -> &[u8] {
    match &r.body {
        ResponseBody::Bytes(b) => b,
        _ => panic!("expected an in-memory body"),
    }
}

#[test]
fn full_response_has_all_headers() {
    let entry = entry_of(b"hello".to_vec(), "text/plain", 0);
    let r = build_found_response(&entry, None, None, None, None, false);
    assert_eq!(r.status, 200);
    assert_eq!(r.content_type.as_deref(), Some("text/plain"));
    assert_eq!(r.content_length, Some(5));
    assert_eq!(
        r.last_modified.as_deref(),
        Some("Thu, 01 Jan 1970 00:00:00 GMT")
    );
    assert_eq!(r.content_encoding, None);
    assert_eq!(r.cache_control, None);
    assert_eq!(r.content_range, None);
    assert_eq!(body_bytes(&r), b"hello");
}

#[test]
fn encoded_response_names_its_encoding() {
    let entry = entry_of(b"x".to_vec(), "text/html", 0);
    let r = build_found_response(&entry, Some(Encoding::Brotli), Some("no-cache"), None, None, false);
    assert_eq!(r.status, 200);
    assert_eq!(r.content_encoding, Some("br"));
    assert_eq!(r.cache_control, Some("no-cache"));
}

#[test]
fn head_suppresses_body_only() {
    let entry = entry_of(b"hello".to_vec(), "text/plain", 0);
    let get = build_found_response(&entry, None, None, None, None, false);
    let head = build_found_response(&entry, None, None, None, None, true);
    assert!(matches!(head.body, ResponseBody::Empty));
    assert_eq!(head.status, get.status);
    assert_eq!(head.content_type, get.content_type);
    assert_eq!(head.content_length, get.content_length);
    assert_eq!(head.last_modified, get.last_modified);
}

#[test]
fn not_modified_when_condition_is_at_or_after() {
    let lm = 784111777; // Sun, 06 Nov 1994 08:49:37 GMT
    let entry = entry_of(b"hello".to_vec(), "text/plain", lm);

    let ims = parse_if_modified_since(Some("Sun, 06 Nov 1994 08:49:37 GMT"));
    assert_eq!(ims, Some(lm));

    let r = build_found_response(&entry, Some(Encoding::Gzip), None, ims, None, false);
    assert_eq!(r.status, 304);
    assert_eq!(r.content_length, Some(0));
    assert!(matches!(r.body, ResponseBody::Empty));
    assert_eq!(
        r.last_modified.as_deref(),
        Some("Sun, 06 Nov 1994 08:49:37 GMT")
    );

    // A strictly earlier condition does not suppress the body.
    let r = build_found_response(&entry, None, None, Some(lm - 1), None, false);
    assert_eq!(r.status, 200);
    assert_eq!(body_bytes(&r), b"hello");
}

#[test]
fn malformed_condition_is_ignored() {
    assert_eq!(parse_if_modified_since(Some("not a date")), None);
    assert_eq!(parse_if_modified_since(None), None);
}

#[test]
fn range_header_forms() {
    assert_eq!(
        parse_range_header(Some("bytes=0-99")),
        Some(RangeSpec { start: Some(0), end: Some(99) })
    );
    assert_eq!(
        parse_range_header(Some("bytes=100-")),
        Some(RangeSpec { start: Some(100), end: None })
    );
    assert_eq!(
        parse_range_header(Some("bytes=-500")),
        Some(RangeSpec { start: None, end: Some(500) })
    );
    // Only the first range of a list is honored.
    assert_eq!(
        parse_range_header(Some("bytes=1-2,5-9")),
        Some(RangeSpec { start: Some(1), end: Some(2) })
    );
    assert_eq!(parse_range_header(Some("items=0-5")), None);
    assert_eq!(parse_range_header(Some("bytes=abc")), None);
    assert_eq!(parse_range_header(Some("bytes=-")), None);
    // A bound that does not fit in 64 bits denotes no usable range.
    assert_eq!(parse_range_header(Some("bytes=99999999999999999999-")), None);
    assert_eq!(parse_range_header(None), None);
}

#[test]
fn range_resolution() {
    assert_eq!(process_range(500, RangeSpec { start: Some(0), end: Some(99) }), Ok((0, 99)));
    assert_eq!(process_range(500, RangeSpec { start: Some(10), end: None }), Ok((10, 499)));
    assert_eq!(process_range(500, RangeSpec { start: None, end: Some(99) }), Ok((0, 99)));
    // End at or beyond the length, or before the start, cannot be served.
    assert!(process_range(500, RangeSpec { start: Some(0), end: Some(500) }).is_err());
    assert!(process_range(500, RangeSpec { start: Some(9), end: Some(8) }).is_err());
    assert!(process_range(500, RangeSpec { start: Some(1000), end: Some(2000) }).is_err());
}

#[test]
fn partial_content_for_first_hundred_bytes() {
    let bytes: Vec<u8> = (0..500u32).map(|i| (i % 256) as u8).collect();
    let entry = entry_of(bytes.clone(), "application/octet-stream", 0);
    let range = parse_range_header(Some("bytes=0-99"));
    let r = build_found_response(&entry, None, None, None, range, false);
    assert_eq!(r.status, 206);
    assert_eq!(r.content_range.as_deref(), Some("bytes 0-99/500"));
    assert_eq!(r.content_length, Some(100));
    assert_eq!(body_bytes(&r), &bytes[0..100]);
}

#[test]
fn unsatisfiable_range_gets_bare_416() {
    let bytes: Vec<u8> = vec![0; 500];
    let entry = entry_of(bytes, "application/octet-stream", 0);
    let range = parse_range_header(Some("bytes=1000-2000"));
    let r = build_found_response(&entry, None, None, None, range, false);
    assert_eq!(r.status, 416);
    assert!(matches!(r.body, ResponseBody::Empty));
    assert_eq!(r.content_length, None);
    assert_eq!(r.content_range, None);
}

#[test]
fn range_of_disk_served_file_names_the_slice() {
    let entry = FileCacheEntry::Found {
        content: FileCacheEntryContent::File,
        content_type: "video/mp4".to_string(),
        content_length: 1_000_000,
        last_modified: 0,
    };
    let r = build_found_response(
        &entry,
        None,
        None,
        None,
        Some(RangeSpec { start: Some(10), end: Some(29) }),
        false,
    );
    assert_eq!(r.status, 206);
    assert_eq!(r.content_range.as_deref(), Some("bytes 10-29/1000000"));
    assert_eq!(r.content_length, Some(20));
    assert!(matches!(
        r.body,
        ResponseBody::FileRange { start: 10, length: 20 }
    ));
}

#[test]
fn negative_entry_advances_to_next_candidate() {
    let entry = FileCacheEntry::NotFound;
    assert!(respond_with_entry(&entry, None, None, None, None, false).is_none());
}

#[test]
fn terminal_responses() {
    let r = srvr::not_found_response();
    assert_eq!(r.status, 404);
    assert!(matches!(r.body, ResponseBody::Empty));
    let r = srvr::bad_request_response();
    assert_eq!(r.status, 400);
    assert!(matches!(r.body, ResponseBody::Empty));
}
