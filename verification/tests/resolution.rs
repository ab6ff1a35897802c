use srvr::collect_paths_to_try;
use srvr::decode_request_path;
use srvr::ClientEncodingSupport;
use srvr::Encoding;
use srvr::ServerState;
use srvr::Config;
use srvr::ConfigError;

#[test]
fn decode_plain_path() {
    let p = decode_request_path("/does/not/exist").unwrap();
    assert_eq!(p, "does/not/exist");
}

#[test]
fn decode_percent_encoded_path() {
    let p = decode_request_path("/a%20b/c.txt").unwrap();
    assert_eq!(p, "a b/c.txt");
}

#[test]
fn decode_rejects_parent_component() {
    assert!(decode_request_path("/../secret").is_none());
    assert!(decode_request_path("/a/../b").is_none());
    assert!(decode_request_path("/a/..").is_none());
}

#[test]
fn decode_rejects_encoded_traversal() {
    assert!(decode_request_path("/%2e%2e/secret").is_none());
    assert!(decode_request_path("/a%2F..%2Fb").is_none());
}

#[test]
fn decode_rejects_absolute_escape() {
    // An encoded slash after trimming gives a decoded path with a root anchor.
    assert!(decode_request_path("/%2Fetc/passwd").is_none());
}

#[test]
fn decode_rejects_undecodable() {
    // 0xC3 alone is not well-formed UTF-8.
    assert!(decode_request_path("/%C3").is_none());
}

#[test]
fn candidate_order_prefers_best_encoding() {
    let support = ClientEncodingSupport::from_header_map(Some("br, gzip"));
    let candidates = collect_paths_to_try(&support, "dist", "dist/index.html", "/app.js", "app.js");

    let content_paths: Vec<String> = candidates.iter().map(|c| c.content_path()).collect();
    assert_eq!(
        content_paths,
        vec![
            "dist/app.js.br",
            "dist/app.js.gz",
            "dist/app.js",
            "dist/index.html.br",
            "dist/index.html.gz",
            "dist/index.html",
        ],
    );

    assert_eq!(candidates[0].encoding(), Some(Encoding::Brotli));
    assert_eq!(candidates[0].cache_control(), None);
    assert_eq!(candidates[2].encoding(), None);

    // Encoded fallback candidates are marked non-cacheable; the plain one is not.
    assert_eq!(candidates[3].cache_control(), Some("no-cache"));
    assert_eq!(candidates[4].cache_control(), Some("no-cache"));
    assert_eq!(candidates[5].cache_control(), None);

    // The logical path (the MIME hint) never carries the encoding suffix.
    assert_eq!(candidates[0].path(), "dist/app.js");
    assert_eq!(candidates[3].path(), "dist/index.html");
}

#[test]
fn root_request_skips_straight_to_fallback() {
    let support = ClientEncodingSupport::from_header_map(None);
    let candidates = collect_paths_to_try(&support, "dist", "dist/index.html", "/", "");
    let content_paths: Vec<String> = candidates.iter().map(|c| c.content_path()).collect();
    assert_eq!(content_paths, vec!["dist/index.html"]);
}

#[test]
fn server_state_default_fallback() {
    let state = ServerState::from_config(Config {
        base_dir: "dist".to_string(),
        fallback_path: None,
        address: None,
        port: None,
    });
    assert_eq!(state.fallback_path, "dist/index.html");

    let state = ServerState::from_config(Config {
        base_dir: "dist".to_string(),
        fallback_path: Some("other/404.html".to_string()),
        address: None,
        port: None,
    });
    assert_eq!(state.fallback_path, "other/404.html");
}

#[test]
fn config_error_messages() {
    let e = ConfigError::InvalidBaseDir("dist".to_string(), "No such file".to_string());
    assert_eq!(e.message(), "Could not open base dir \"dist\": No such file");
    let e = ConfigError::InvalidFallbackPath("x.html".to_string(), "denied".to_string());
    assert_eq!(e.message(), "Could not open fallback path \"x.html\": denied");
}
