use futures::executor::block_on;
use futures::io::AsyncReadExt;

use pb_std_rules::dest::Node;
use pb_std_rules::errors::PipelineError;
use pb_std_rules::pipeline::materialize;
use pb_std_rules::rules::{
    find_header, required_attributes, rule_set, Attribute, AttributeKind, HttpRule, StdRule,
};
use pb_std_rules::stream::{ChunkResult, StreamWrapper};

fn small_archive() -> Vec<u8> {
    let mut builder = tar::Builder::new(Vec::new());
    let mut file = tar::Header::new_ustar();
    file.set_entry_type(tar::EntryType::Regular);
    file.set_path("greeting.txt").unwrap();
    file.set_size(5);
    file.set_cksum();
    builder.append(&file, &b"hello"[..]).unwrap();
    builder.into_inner().unwrap()
}

fn gzip(data: &[u8]) -> Vec<u8> {
    let mut enc = async_compression::futures::bufread::GzipEncoder::new(data);
    let mut out = Vec::new();
    block_on(enc.read_to_end(&mut out)).unwrap();
    out
}

fn one_chunk(data: &[u8]) -> Vec<ChunkResult> {
    vec![ChunkResult::Data(data.to_vec())]
}

#[test]
fn materialize_commits_exactly_the_archive_tree() {
    let body = StreamWrapper::new(one_chunk(&gzip(&small_archive())));
    let dir = materialize("repo".to_string(), Some("gzip"), None, body).unwrap();
    assert!(dir.is_committed());
    assert_eq!(dir.name().as_str(), "repo");
    assert_eq!(
        dir.entries(),
        &vec![Node::File { path: "greeting.txt".to_string(), data: b"hello".to_vec() }]
    );
    assert!(dir.skipped().is_empty());
}

#[test]
fn rerun_on_identical_input_yields_an_identical_tree() {
    let archive = gzip(&small_archive());
    let first = materialize(
        "repo".to_string(),
        Some("gzip"),
        None,
        StreamWrapper::new(one_chunk(&archive)),
    )
    .unwrap();
    let second = materialize(
        "repo".to_string(),
        Some("gzip"),
        None,
        StreamWrapper::new(one_chunk(&archive)),
    )
    .unwrap();
    assert_eq!(first.entries(), second.entries());
    assert_eq!(first.skipped(), second.skipped());
    assert_eq!(first.name(), second.name());
    assert_eq!(first.is_committed(), second.is_committed());
}

#[test]
fn failed_stream_commits_no_directory() {
    let archive = gzip(&small_archive());
    let partial = &archive[..archive.len() / 2];
    let body = StreamWrapper::new(vec![
        ChunkResult::Data(partial.to_vec()),
        ChunkResult::Failed,
    ]);
    // The run fails as a unit: no directory handle survives, so the
    // top-level close is never reached for this run's destination.
    let err = materialize("repo".to_string(), Some("gzip"), None, body).unwrap_err();
    assert_eq!(err, PipelineError::Transport);
}

#[test]
fn truncated_compressed_payload_is_a_decode_error() {
    let archive = gzip(&small_archive());
    let partial = &archive[..archive.len() / 2];
    let body = StreamWrapper::new(one_chunk(partial));
    let err = materialize("repo".to_string(), Some("gzip"), None, body).unwrap_err();
    assert!(matches!(err, PipelineError::Decode(_)));
}

#[test]
fn required_attributes_are_validated() {
    let attrs = vec![
        ("name".to_string(), Attribute::Text("repo".to_string())),
        ("url".to_string(), Attribute::Text("https://example.test/a.tar".to_string())),
    ];
    let (name, url) = required_attributes(&attrs).unwrap();
    assert_eq!(name, "repo");
    assert_eq!(url, "https://example.test/a.tar");

    let missing_name = vec![("url".to_string(), Attribute::Text("u".to_string()))];
    assert_eq!(
        required_attributes(&missing_name).unwrap_err(),
        PipelineError::MissingAttribute("name".to_string())
    );

    let missing_url = vec![("name".to_string(), Attribute::Text("n".to_string()))];
    assert_eq!(
        required_attributes(&missing_url).unwrap_err(),
        PipelineError::MissingAttribute("url".to_string())
    );
}

#[test]
fn find_header_matches_exactly_and_takes_the_first() {
    let headers = vec![
        ("content-type".to_string(), "application/octet-stream".to_string()),
        ("content-encoding".to_string(), "gzip".to_string()),
        ("content-encoding".to_string(), "zstd".to_string()),
    ];
    assert_eq!(find_header(&headers, "content-encoding"), Some("gzip".to_string()));
    assert_eq!(find_header(&headers, "Content-Encoding"), None);
    assert_eq!(find_header(&headers, "content-disposition"), None);
}

#[test]
fn http_rule_executes_the_whole_pipeline() {
    let rule = HttpRule {};
    assert_eq!(rule.name().as_str(), "http-repository");

    let spec = rule.attribute_spec();
    assert_eq!(spec.len(), 3);
    assert_eq!(spec[0].name.as_str(), "name");
    assert_eq!(spec[0].kind, AttributeKind::Text);
    assert!(spec[0].required);
    assert_eq!(spec[1].name.as_str(), "url");
    assert!(spec[1].required);
    assert_eq!(spec[2].name.as_str(), "integrity");
    assert!(!spec[2].required);

    let attrs = vec![
        ("name".to_string(), Attribute::Text("repo".to_string())),
        ("url".to_string(), Attribute::Text("https://example.test/a.tar".to_string())),
    ];
    let headers = vec![("content-encoding".to_string(), "gzip".to_string())];
    let body = StreamWrapper::new(one_chunk(&gzip(&small_archive())));
    let dir = rule.execute(&attrs, &headers, body).unwrap();
    assert!(dir.is_committed());
    assert_eq!(dir.name().as_str(), "repo");
    assert_eq!(
        dir.entries(),
        &vec![Node::File { path: "greeting.txt".to_string(), data: b"hello".to_vec() }]
    );
}

#[test]
fn http_rule_fails_on_missing_attributes() {
    let rule = HttpRule {};
    let headers = Vec::new();
    let body = StreamWrapper::new(Vec::new());
    let err = rule.execute(&Vec::new(), &headers, body).unwrap_err();
    assert_eq!(err, PipelineError::MissingAttribute("name".to_string()));
}

#[test]
fn rule_set_registers_the_http_rule() {
    let rules = rule_set();
    assert_eq!(rules.len(), 1);
    assert_eq!(rules[0].0.as_str(), "http-repository");
    assert_eq!(rules[0].1.name().as_str(), "http-repository");
}

#[test]
fn std_rule_collects_the_whole_body() {
    let rule = StdRule::default();
    assert_eq!(rule.name().as_str(), "http");
    let body = StreamWrapper::new(vec![
        ChunkResult::Data(b"first ".to_vec()),
        ChunkResult::Data(b"second".to_vec()),
    ]);
    assert_eq!(rule.run(body).unwrap(), b"first second");
}

#[test]
fn std_rule_fails_on_a_failed_delivery() {
    let rule = StdRule::default();
    let body = StreamWrapper::new(vec![ChunkResult::Data(b"x".to_vec()), ChunkResult::Failed]);
    assert_eq!(rule.run(body).unwrap_err(), PipelineError::Transport);
}
