//! The archive materialization pipeline: detect the codec chain from the
//! transport metadata, stage the body, decode it, reconstruct the tar
//! structure into a destination directory, and commit that directory.
//!
//! Every error aborts the run as a unit before the final commit, so a
//! failed run never leaves a visible destination.

use vstd::prelude::*;

use crate::archive::{
    reconstruct_tar, spec_entries_after, spec_parse_entries, spec_skipped_after, TarEntryModel,
};
use crate::codec::{
    parse_content_encoding, spec_from_filename, spec_parse_content_encoding, Compression,
};
use crate::decode::{decode_chain, spec_chain_decoded};
use crate::dest::{EntryModel, WriteDirectory};
use crate::errors::{ErrorModel, PipelineError, TarError};
use crate::stream::{spec_drained, stage_stream, ChunkResult, StreamWrapper};
use crate::text::spec_ends_with;
use vstd::string::StrSliceExecFns;

verus! {

/// What the content_disposition crate extracts as the suggested filename
/// from a content-disposition header value, if any.
pub uninterp spec fn disposition_filename(s: Seq<char>) -> Option<Seq<char>>;

/// Relies on content_disposition::parse_content_disposition and
/// ParsedContentDisposition::filename_full: the extracted filename is a
/// function of the header text alone.
#[verifier::external_body]
fn parse_disposition_filename(header: &str) -> (r: Option<String>)
    ensures
        r is Some <==> disposition_filename(header@) is Some,
        r is Some ==> r->Some_0@ == disposition_filename(header@)->Some_0,
{
    content_disposition::parse_content_disposition(header).filename_full()
}

/// The view of an optional piece of header text.
pub open spec fn spec_opt_text(o: Option<&str>) -> Option<Seq<char>> {
    match o {
        Some(s) => Some(s@),
        None => None,
    }
}

/// The codec the content-disposition header suggests, as a chain: the
/// parsed filename's suffix may name one codec; otherwise the chain is
/// empty.
pub open spec fn spec_detect_from_disposition(disp: Option<Seq<char>>) -> Result<
    Seq<Compression>,
    Seq<char>,
> {
    match disp {
        None => Ok(Seq::empty()),
        Some(d) => match disposition_filename(d) {
            None => Ok(Seq::empty()),
            Some(f) => match spec_from_filename(f) {
                None => Ok(Seq::empty()),
                Some(c) => Ok(seq![c]),
            },
        },
    }
}

/// The codec chain the transport metadata declares: a present, non-empty
/// content-encoding header decides alone; otherwise the filename
/// heuristic applies. `Err` carries the first unrecognized token.
pub open spec fn spec_detect(enc: Option<Seq<char>>, disp: Option<Seq<char>>) -> Result<
    Seq<Compression>,
    Seq<char>,
> {
    match enc {
        Some(h) => if h.len() > 0 {
            spec_parse_content_encoding(h)
        } else {
            spec_detect_from_disposition(disp)
        },
        None => spec_detect_from_disposition(disp),
    }
}

/// The compression detector: turns the two transport headers into an
/// ordered codec chain, in declared order. Every content-encoding token
/// must resolve; an unrecognized one fails the whole run.
pub fn detect_codecs(content_encoding: Option<&str>, content_disposition: Option<&str>) -> (r:
    Result<Vec<Compression>, PipelineError>)
    ensures
        match r {
            Ok(chain) => spec_detect(
                spec_opt_text(content_encoding),
                spec_opt_text(content_disposition),
            ) == Ok::<Seq<Compression>, Seq<char>>(chain@),
            Err(e) => e matches PipelineError::UnrecognizedEncoding(tok) && spec_detect(
                spec_opt_text(content_encoding),
                spec_opt_text(content_disposition),
            ) == Err::<Seq<Compression>, Seq<char>>(tok@),
        },
{
    match content_encoding {
        Some(h) => {
            if h.unicode_len() > 0 {
                match parse_content_encoding(h) {
                    Ok(chain) => Ok(chain),
                    Err(tok) => Err(PipelineError::UnrecognizedEncoding(tok)),
                }
            } else {
                Ok(detect_from_disposition(content_disposition))
            }
        },
        None => Ok(detect_from_disposition(content_disposition)),
    }
}

/// The filename heuristic, applied when no content-encoding is declared.
fn detect_from_disposition(content_disposition: Option<&str>) -> (r: Vec<Compression>)
    ensures
        spec_detect_from_disposition(spec_opt_text(content_disposition)) == Ok::<
            Seq<Compression>,
            Seq<char>,
        >(r@),
{
    match content_disposition {
        None => Vec::new(),
        Some(d) => match parse_disposition_filename(d) {
            None => Vec::new(),
            Some(f) => match Compression::from_filename(f.as_str()) {
                None => Vec::new(),
                Some(c) => {
                    let mut chain: Vec<Compression> = Vec::new();
                    chain.push(c);
                    proof {
                        assert(chain@ =~= seq![c]);
                    }
                    chain
                },
            },
        },
    }
}

/// What draining and decoding the body yields: the transport headers
/// pick the chain before the body is read, the staging sink concatenates
/// the delivered chunks, and the decode chain unwraps the staged bytes.
pub open spec fn spec_decompressed(
    enc: Option<Seq<char>>,
    disp: Option<Seq<char>>,
    chunks: Seq<ChunkResult>,
) -> Result<Seq<u8>, ErrorModel> {
    match spec_detect(enc, disp) {
        Err(tok) => Err(ErrorModel::UnrecognizedEncoding(tok)),
        Ok(chain) => match spec_drained(chunks) {
            None => Err(ErrorModel::Transport),
            Some(staged) => match spec_chain_decoded(chain, staged) {
                Err(c) => Err(ErrorModel::Decode(c)),
                Ok(out) => Ok(out),
            },
        },
    }
}

/// Wraps the incoming stream's remaining deliveries into the decompressed
/// payload: detects the codec chain from the headers, drains the body
/// into a staged artifact, and decodes the staged bytes. Detection
/// happens before the first chunk is consumed.
pub fn decompress_stream(
    incoming: &mut StreamWrapper,
    content_encoding: Option<&str>,
    content_disposition: Option<&str>,
) -> (r: Result<Vec<u8>, PipelineError>)
    requires
        old(incoming).wf(),
    ensures
        final(incoming).wf(),
        match r {
            Ok(out) => spec_decompressed(
                spec_opt_text(content_encoding),
                spec_opt_text(content_disposition),
                old(incoming).spec_remaining(),
            ) == Ok::<Seq<u8>, ErrorModel>(out@),
            Err(e) => spec_decompressed(
                spec_opt_text(content_encoding),
                spec_opt_text(content_disposition),
                old(incoming).spec_remaining(),
            ) == Err::<Seq<u8>, ErrorModel>(e@),
        },
{
    let chain = match detect_codecs(content_encoding, content_disposition) {
        Err(e) => {
            return Err(e);
        },
        Ok(chain) => chain,
    };
    let staged = match stage_stream(incoming) {
        Err(e) => {
            return Err(e);
        },
        Ok(s) => s,
    };
    let raw = staged.into_read();
    match decode_chain(&chain, &raw) {
        Err(c) => Err(PipelineError::Decode(c)),
        Ok(out) => Ok(out),
    }
}

/// The mathematical picture of a committed destination tree.
pub struct TreeModel {
    pub name: Seq<char>,
    pub entries: Seq<EntryModel>,
    pub skipped: Seq<Seq<char>>,
}

/// What a whole run yields on these inputs: the decompressed payload is
/// parsed as a tar archive and replayed, in archive order, into a fresh
/// destination of the given name, which is then committed.
pub open spec fn spec_materialize(
    name: Seq<char>,
    enc: Option<Seq<char>>,
    disp: Option<Seq<char>>,
    chunks: Seq<ChunkResult>,
) -> Result<TreeModel, ErrorModel> {
    match spec_decompressed(enc, disp, chunks) {
        Err(e) => Err(e),
        Ok(bytes) => match spec_parse_entries(bytes, 0) {
            Err(te) => Err(ErrorModel::Archive(te)),
            Ok(ts) => Ok(
                TreeModel {
                    name: name,
                    entries: spec_entries_after(Seq::empty(), ts),
                    skipped: spec_skipped_after(Seq::empty(), ts),
                },
            ),
        },
    }
}

/// Runs the whole pipeline: fetch headers and body are given, the rest —
/// detection, staging, decoding, tar reconstruction, and the final
/// top-level commit — happens here. Only a fully successful run returns
/// a directory, and that directory is committed; every error leaves
/// nothing visible.
pub fn materialize(
    name: String,
    content_encoding: Option<&str>,
    content_disposition: Option<&str>,
    body: StreamWrapper,
) -> (r: Result<WriteDirectory, PipelineError>)
    requires
        body.wf(),
    ensures
        match r {
            Ok(dir) => {
                &&& dir.spec_committed()
                &&& dir.spec_open_child() is None
                &&& dir.spec_visible() == Some(dir.spec_entries())
                &&& spec_materialize(
                    name@,
                    spec_opt_text(content_encoding),
                    spec_opt_text(content_disposition),
                    body.spec_remaining(),
                ) == Ok::<TreeModel, ErrorModel>(
                    (TreeModel {
                        name: dir.spec_name(),
                        entries: dir.spec_entries(),
                        skipped: dir.spec_skipped(),
                    }),
                )
                &&& dir.spec_name() == name@
            },
            Err(e) => spec_materialize(
                name@,
                spec_opt_text(content_encoding),
                spec_opt_text(content_disposition),
                body.spec_remaining(),
            ) == Err::<TreeModel, ErrorModel>(e@),
        },
{
    let mut stream = body;
    let decoded = match decompress_stream(&mut stream, content_encoding, content_disposition) {
        Err(e) => {
            return Err(e);
        },
        Ok(d) => d,
    };
    let fresh = WriteDirectory::new(name);
    let mut dir = match reconstruct_tar(fresh, &decoded) {
        Err(te) => {
            return Err(PipelineError::Archive(te));
        },
        Ok(d) => d,
    };
    dir.close();
    Ok(dir)
}

/// With no declared content-encoding, a disposition filename ending in
/// `zst` or `zstd` selects exactly the Zstd codec, and a filename with
/// any other suffix selects the empty chain.
pub proof fn lemma_filename_detection(enc: Option<Seq<char>>, disp: Seq<char>, f: Seq<char>)
    requires
        match enc {
            Some(h) => h.len() == 0,
            None => true,
        },
        disposition_filename(disp) == Some(f),
    ensures
        (spec_ends_with(f, "zst"@) || spec_ends_with(f, "zstd"@)) ==> spec_detect(enc, Some(disp))
            == Ok::<Seq<Compression>, Seq<char>>(seq![Compression::Zstd]),
        !(spec_ends_with(f, "zst"@) || spec_ends_with(f, "zstd"@)) ==> spec_detect(enc, Some(disp))
            == Ok::<Seq<Compression>, Seq<char>>(Seq::<Compression>::empty()),
{
}

/// A network failure after any number of delivered chunks fails the run,
/// and the run commits nothing: only a fully successful run returns a
/// destination directory, so none for this run is ever committed.
pub proof fn lemma_failed_stream_never_commits(
    name: Seq<char>,
    enc: Option<Seq<char>>,
    disp: Option<Seq<char>>,
    chunks: Seq<ChunkResult>,
)
    requires
        exists|i: int| 0 <= i < chunks.len() && chunks[i] is Failed,
    ensures
        spec_materialize(name, enc, disp, chunks) is Err,
        spec_detect(enc, disp) is Ok ==> spec_materialize(name, enc, disp, chunks) == Err::<
            TreeModel,
            ErrorModel,
        >(ErrorModel::Transport),
{
    crate::stream::lemma_failed_stream_drains_nothing(chunks);
}

/// An unrecognized content-encoding token fails the run as a
/// configuration error before the body is read: the result is the same
/// whatever the body delivers.
pub proof fn lemma_unrecognized_token_fails_early(
    name: Seq<char>,
    enc: Option<Seq<char>>,
    disp: Option<Seq<char>>,
    b1: Seq<ChunkResult>,
    b2: Seq<ChunkResult>,
)
    requires
        spec_detect(enc, disp) is Err,
    ensures
        spec_materialize(name, enc, disp, b1) == Err::<TreeModel, ErrorModel>(
            ErrorModel::UnrecognizedEncoding(spec_detect(enc, disp)->Err_0),
        ),
        spec_materialize(name, enc, disp, b1) == spec_materialize(name, enc, disp, b2),
{
}

/// Idempotence: one input has one result. Two runs that both meet the
/// pipeline's contract on identical input yield the same value, so a
/// re-run against a fresh destination produces a byte-identical tree.
pub proof fn lemma_rerun_identical(
    name: Seq<char>,
    enc: Option<Seq<char>>,
    disp: Option<Seq<char>>,
    chunks: Seq<ChunkResult>,
    r1: Result<TreeModel, ErrorModel>,
    r2: Result<TreeModel, ErrorModel>,
)
    requires
        r1 == spec_materialize(name, enc, disp, chunks),
        r2 == spec_materialize(name, enc, disp, chunks),
    ensures
        r1 == r2,
{
}

} // verus!
