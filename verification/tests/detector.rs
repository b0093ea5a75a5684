use pb_std_rules::codec::Compression;
use pb_std_rules::errors::PipelineError;
use pb_std_rules::pipeline::detect_codecs;

#[test]
fn token_table_maps_every_supported_codec() {
    assert_eq!(Compression::from_content_encoding("br"), Some(Compression::Brotli));
    assert_eq!(Compression::from_content_encoding("gzip"), Some(Compression::Gzip));
    assert_eq!(Compression::from_content_encoding("xz"), Some(Compression::Xz));
    assert_eq!(Compression::from_content_encoding("zstd"), Some(Compression::Zstd));
}

#[test]
fn token_table_is_exact_and_case_sensitive() {
    assert_eq!(Compression::from_content_encoding("foo"), None);
    assert_eq!(Compression::from_content_encoding("GZIP"), None);
    assert_eq!(Compression::from_content_encoding("gz"), None);
    assert_eq!(Compression::from_content_encoding(""), None);
    assert_eq!(Compression::from_content_encoding(" gzip"), None);
}

#[test]
fn filename_suffix_selects_zstd() {
    assert_eq!(Compression::from_filename("archive.zst"), Some(Compression::Zstd));
    assert_eq!(Compression::from_filename("archive.zstd"), Some(Compression::Zstd));
    assert_eq!(Compression::from_filename("archive.tar.gz"), None);
    assert_eq!(Compression::from_filename("archive"), None);
}

#[test]
fn encoding_list_is_split_and_trimmed_in_order() {
    let chain = detect_codecs(Some("gzip"), None).unwrap();
    assert_eq!(chain, vec![Compression::Gzip]);

    let chain = detect_codecs(Some("br, zstd"), None).unwrap();
    assert_eq!(chain, vec![Compression::Brotli, Compression::Zstd]);

    let chain = detect_codecs(Some(" xz\t, gzip "), None).unwrap();
    assert_eq!(chain, vec![Compression::Xz, Compression::Gzip]);
}

#[test]
fn unrecognized_token_is_a_fatal_configuration_error() {
    let err = detect_codecs(Some("foo"), None).unwrap_err();
    assert_eq!(err, PipelineError::UnrecognizedEncoding("foo".to_string()));

    let err = detect_codecs(Some("gzip, foo"), None).unwrap_err();
    assert_eq!(err, PipelineError::UnrecognizedEncoding("foo".to_string()));

    // No token may be silently dropped: an empty token does not resolve.
    let err = detect_codecs(Some("gzip,,xz"), None).unwrap_err();
    assert_eq!(err, PipelineError::UnrecognizedEncoding("".to_string()));
}

#[test]
fn content_encoding_takes_precedence_over_filename() {
    let disp = "attachment; filename=\"archive.zst\"";
    let chain = detect_codecs(Some("gzip"), Some(disp)).unwrap();
    assert_eq!(chain, vec![Compression::Gzip]);
}

#[test]
fn disposition_filename_selects_zstd_without_encoding() {
    let disp = "attachment; filename=\"archive.zst\"";
    assert_eq!(detect_codecs(None, Some(disp)).unwrap(), vec![Compression::Zstd]);
    // An empty content-encoding header behaves as if it were absent.
    assert_eq!(detect_codecs(Some(""), Some(disp)).unwrap(), vec![Compression::Zstd]);
}

#[test]
fn unrecognized_filename_suffix_selects_the_empty_chain() {
    let disp = "attachment; filename=\"archive.tar\"";
    assert_eq!(detect_codecs(None, Some(disp)).unwrap(), Vec::<Compression>::new());
    let disp = "inline";
    assert_eq!(detect_codecs(None, Some(disp)).unwrap(), Vec::<Compression>::new());
}

#[test]
fn no_headers_select_the_empty_chain() {
    assert_eq!(detect_codecs(None, None).unwrap(), Vec::<Compression>::new());
    assert_eq!(detect_codecs(Some(""), None).unwrap(), Vec::<Compression>::new());
}
