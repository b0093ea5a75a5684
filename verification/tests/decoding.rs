use async_compression::futures::bufread::{BrotliEncoder, GzipEncoder, XzEncoder, ZstdEncoder};
use futures::executor::block_on;
use futures::io::AsyncReadExt;

use pb_std_rules::codec::Compression;
use pb_std_rules::errors::PipelineError;
use pb_std_rules::pipeline::decompress_stream;
use pb_std_rules::stream::{ChunkResult, StreamWrapper};

fn encode(codec: Compression, data: &[u8]) -> Vec<u8> {
    let mut out = Vec::new();
    match codec {
        Compression::Brotli => {
            let mut enc = BrotliEncoder::new(data);
            block_on(enc.read_to_end(&mut out)).unwrap();
        }
        Compression::Gzip => {
            let mut enc = GzipEncoder::new(data);
            block_on(enc.read_to_end(&mut out)).unwrap();
        }
        Compression::Xz => {
            let mut enc = XzEncoder::new(data);
            block_on(enc.read_to_end(&mut out)).unwrap();
        }
        Compression::Zstd => {
            let mut enc = ZstdEncoder::new(data);
            block_on(enc.read_to_end(&mut out)).unwrap();
        }
    }
    out
}

/// Splits bytes into two chunk deliveries so arrival order matters.
fn chunks_of(data: &[u8]) -> Vec<ChunkResult> {
    let mid = data.len() / 2;
    vec![
        ChunkResult::Data(data[..mid].to_vec()),
        ChunkResult::Data(data[mid..].to_vec()),
    ]
}

fn decode_with(encoding: Option<&str>, data: &[u8]) -> Result<Vec<u8>, PipelineError> {
    let mut stream = StreamWrapper::new(chunks_of(data));
    decompress_stream(&mut stream, encoding, None)
}

#[test]
fn round_trip_brotli() {
    let payload = b"the quick brown fox jumps over the lazy dog".repeat(100);
    let compressed = encode(Compression::Brotli, &payload);
    assert_eq!(decode_with(Some("br"), &compressed).unwrap(), payload);
}

#[test]
fn round_trip_gzip() {
    let payload = b"the quick brown fox jumps over the lazy dog".repeat(100);
    let compressed = encode(Compression::Gzip, &payload);
    assert_eq!(decode_with(Some("gzip"), &compressed).unwrap(), payload);
}

#[test]
fn round_trip_xz() {
    let payload = b"the quick brown fox jumps over the lazy dog".repeat(100);
    let compressed = encode(Compression::Xz, &payload);
    assert_eq!(decode_with(Some("xz"), &compressed).unwrap(), payload);
}

#[test]
fn round_trip_zstd() {
    let payload = b"the quick brown fox jumps over the lazy dog".repeat(100);
    let compressed = encode(Compression::Zstd, &payload);
    assert_eq!(decode_with(Some("zstd"), &compressed).unwrap(), payload);
}

#[test]
fn round_trip_identity() {
    let payload = b"plain bytes, no encoding at all".to_vec();
    assert_eq!(decode_with(None, &payload).unwrap(), payload);
    assert_eq!(decode_with(Some(""), &payload).unwrap(), payload);
}

#[test]
fn round_trip_zstd_via_disposition_filename() {
    let payload = b"suffix-detected zstd payload".to_vec();
    let compressed = encode(Compression::Zstd, &payload);
    let mut stream = StreamWrapper::new(chunks_of(&compressed));
    let out = decompress_stream(&mut stream, None, Some("attachment; filename=\"a.zst\""));
    assert_eq!(out.unwrap(), payload);
}

#[test]
fn stacked_chain_unwraps_in_reverse_declaration_order() {
    // Declared `gzip, zstd`: gzip was applied first when encoding, zstd
    // second, so decoding must unwrap zstd first, then gzip.
    let payload = b"two layers of compression".repeat(50);
    let layered = encode(Compression::Zstd, &encode(Compression::Gzip, &payload));
    assert_eq!(decode_with(Some("gzip, zstd"), &layered).unwrap(), payload);

    // The same payload under the reversed declaration is not decodable:
    // the first decoder to run sees the wrong outermost layer.
    assert!(decode_with(Some("zstd, gzip"), &layered).is_err());
}

#[test]
fn corrupt_payload_is_a_fatal_decode_error() {
    let garbage = b"this is not a gzip stream".to_vec();
    let err = decode_with(Some("gzip"), &garbage).unwrap_err();
    assert_eq!(err, PipelineError::Decode(Compression::Gzip));
}

#[test]
fn failed_chunk_aborts_staging() {
    let mut stream = StreamWrapper::new(vec![
        ChunkResult::Data(b"partial".to_vec()),
        ChunkResult::Failed,
        ChunkResult::Data(b"never read".to_vec()),
    ]);
    let err = decompress_stream(&mut stream, None, None).unwrap_err();
    assert_eq!(err, PipelineError::Transport);
}

#[test]
fn unrecognized_token_fails_before_the_body_is_consumed() {
    let mut stream = StreamWrapper::new(vec![ChunkResult::Failed]);
    // Even a stream that would fail on its first delivery is never
    // touched: the configuration error comes first.
    let err = decompress_stream(&mut stream, Some("foo"), None).unwrap_err();
    assert_eq!(err, PipelineError::UnrecognizedEncoding("foo".to_string()));
    assert!(stream.next().is_some());
}
