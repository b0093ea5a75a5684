//! Error taxonomy of the pipeline: every error aborts the whole run as a
//! unit, and no partially built destination is ever committed.

use vstd::prelude::*;

use crate::codec::Compression;

verus! {

/// Why the staged bytes cannot be reconstructed as a tar archive.
#[derive(Clone, Copy, Debug, PartialEq, Eq, Structural)]
pub enum TarError {
    /// The archive ends inside a header block.
    TruncatedHeader,
    /// A header block whose checksum field does not match its bytes.
    BadChecksum,
    /// A size field that is not a well-formed octal number.
    BadSize,
    /// An entry path that does not decode as UTF-8 text.
    NonUtf8Path,
    /// The archive ends inside an entry's payload.
    TruncatedData,
}

/// Why a pipeline run fails.
#[derive(Debug, PartialEq, Eq)]
pub enum PipelineError {
    /// A content-encoding token that resolves to no supported codec;
    /// carries the offending token. Surfaced before the body is read.
    UnrecognizedEncoding(String),
    /// A required rule attribute is absent; carries the attribute name.
    /// Surfaced before any network activity.
    MissingAttribute(String),
    /// The network stream failed mid-download.
    Transport,
    /// A decoder rejected its input; carries the codec that failed.
    Decode(Compression),
    /// The staged bytes are not a well-formed tar archive.
    Archive(TarError),
}

/// The mathematical picture of a pipeline error.
pub enum ErrorModel {
    UnrecognizedEncoding(Seq<char>),
    MissingAttribute(Seq<char>),
    Transport,
    Decode(Compression),
    Archive(TarError),
}

impl View for PipelineError {
    type V = ErrorModel;

    open spec fn view(&self) -> ErrorModel {
        match self {
            PipelineError::UnrecognizedEncoding(t) => ErrorModel::UnrecognizedEncoding(t@),
            PipelineError::MissingAttribute(t) => ErrorModel::MissingAttribute(t@),
            PipelineError::Transport => ErrorModel::Transport,
            PipelineError::Decode(c) => ErrorModel::Decode(*c),
            PipelineError::Archive(e) => ErrorModel::Archive(*e),
        }
    }
}

} // verus!
