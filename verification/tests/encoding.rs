use srvr::ClientEncodingSupport;
use srvr::Encoding;

#[test]
fn test_check_support() {
    let encodings = &["gzip", "brotli"];

    assert!(ClientEncodingSupport::check_support(encodings, "gzip"));
    assert!(ClientEncodingSupport::check_support(encodings, "brotli"));
    assert!(!ClientEncodingSupport::check_support(encodings, "deflate"));
}

#[test]
fn test_check_support_with_quality() {
    let encodings = &["gzip;q=1.0", "brotli"];

    assert!(ClientEncodingSupport::check_support(encodings, "gzip"));
    assert!(ClientEncodingSupport::check_support(encodings, "brotli"));
    assert!(!ClientEncodingSupport::check_support(encodings, "deflate"));
}

#[test]
fn test_supported_encodings() {
    let mut support = ClientEncodingSupport {
        has_gzip: true,
        has_brotli: true,
        has_zstandard: true,
    };

    assert_eq!(
        support.supported_encodings(),
        &[Encoding::Brotli, Encoding::Zstandard, Encoding::Gzip],
    );

    support.has_gzip = false;
    assert_eq!(
        support.supported_encodings(),
        &[Encoding::Brotli, Encoding::Zstandard]
    );

    support.has_brotli = false;
    assert_eq!(support.supported_encodings(), &[Encoding::Zstandard]);

    support.has_zstandard = false;
    assert_eq!(support.supported_encodings(), &[] as &[Encoding; 0]);

    support.has_gzip = true;
    assert_eq!(support.supported_encodings(), &[Encoding::Gzip]);
}

#[test]
fn test_simple_header_map() {
    let support = ClientEncodingSupport::from_header_map(Some("gzip, Br"));

    assert!(support.has_gzip);
    assert!(support.has_brotli);
    assert!(!support.has_zstandard);

    assert_eq!(
        support.supported_encodings(),
        &[Encoding::Brotli, Encoding::Gzip],
    );
}

#[test]
fn test_header_map_with_quality() {
    let support = ClientEncodingSupport::from_header_map(Some("gzip;q=1.0, br ;  0.5"));

    assert!(support.has_gzip);
    assert!(support.has_brotli);
    assert!(!support.has_zstandard);

    assert_eq!(
        support.supported_encodings(),
        &[Encoding::Brotli, Encoding::Gzip],
    );
}

#[test]
fn test_empty_header_map() {
    let support = ClientEncodingSupport::from_header_map(None);

    assert!(!support.has_gzip);
    assert!(!support.has_brotli);

    assert!(support.supported_encodings().is_empty());
}

#[test]
fn test_simple_header_map_with_deflate() {
    let support = ClientEncodingSupport::from_header_map(Some("deflate"));

    assert!(!support.has_gzip);
    assert!(!support.has_brotli);

    assert!(support.supported_encodings().is_empty());
}

#[test]
fn test_header_tokens_and_extensions() {
    assert_eq!(Encoding::Brotli.to_header_value(), "br");
    assert_eq!(Encoding::Gzip.to_header_value(), "gzip");
    assert_eq!(Encoding::Zstandard.to_header_value(), "zstd");
    assert_eq!(Encoding::Brotli.get_extension(), ".br");
    assert_eq!(Encoding::Gzip.get_extension(), ".gz");
    assert_eq!(Encoding::Zstandard.get_extension(), ".zst");
}

#[test]
fn test_zero_quality_still_supported() {
    // The quality value is parsed past, never consulted: q=0 still counts.
    let support = ClientEncodingSupport::from_header_map(Some("gzip;q=0"));
    assert!(support.has_gzip);
}

#[test]
fn test_brotli_beats_gzip_in_order() {
    let support = ClientEncodingSupport::from_header_map(Some("br, gzip"));
    assert!(support.has_brotli);
    assert!(support.has_gzip);
    assert_eq!(
        support.supported_encodings(),
        &[Encoding::Brotli, Encoding::Gzip],
    );
}
