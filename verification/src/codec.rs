//! The compression detector: turns transport metadata (content-encoding
//! header, content-disposition filename) into an ordered codec chain.

use vstd::prelude::*;

use crate::text::{
    spec_ends_with, spec_split_commas, spec_trim, split_commas, str_ends_with, str_eq, str_trim,
};

verus! {

/// Compression formats that the pipeline supports.
#[derive(Copy, Clone, Debug, PartialEq, Eq, Structural)]
pub enum Compression {
    Brotli,
    Gzip,
    Xz,
    Zstd,
}

/// The codec named by one content-encoding token, by the fixed table
/// br, gzip, xz, zstd (exact, case-sensitive).
pub open spec fn spec_from_content_encoding(t: Seq<char>) -> Option<Compression> {
    if t == "br"@ {
        Some(Compression::Brotli)
    } else if t == "gzip"@ {
        Some(Compression::Gzip)
    } else if t == "xz"@ {
        Some(Compression::Xz)
    } else if t == "zstd"@ {
        Some(Compression::Zstd)
    } else {
        None
    }
}

/// The codec suggested by a filename: a name ending in `zst` or `zstd`
/// means Zstd; any other name suggests nothing.
pub open spec fn spec_from_filename(name: Seq<char>) -> Option<Compression> {
    if spec_ends_with(name, "zst"@) || spec_ends_with(name, "zstd"@) {
        Some(Compression::Zstd)
    } else {
        None
    }
}

impl Compression {
    /// Maps one content-encoding token to its codec.
    pub fn from_content_encoding(component: &str) -> (r: Option<Compression>)
        ensures
            r == spec_from_content_encoding(component@),
    {
        if str_eq(component, "br") {
            Some(Compression::Brotli)
        } else if str_eq(component, "gzip") {
            Some(Compression::Gzip)
        } else if str_eq(component, "xz") {
            Some(Compression::Xz)
        } else if str_eq(component, "zstd") {
            Some(Compression::Zstd)
        } else {
            None
        }
    }

    /// Derives a codec from a suggested filename by suffix matching.
    pub fn from_filename(filename: &str) -> (r: Option<Compression>)
        ensures
            r == spec_from_filename(filename@),
    {
        if str_ends_with(filename, "zst") || str_ends_with(filename, "zstd") {
            Some(Compression::Zstd)
        } else {
            None
        }
    }
}

/// The codec chain named by a list of already-split tokens: every token,
/// once trimmed, must resolve; the first unresolved token is the error.
pub open spec fn spec_codecs_of_tokens(ts: Seq<Seq<char>>) -> Result<Seq<Compression>, Seq<char>>
    decreases ts.len(),
{
    if ts.len() == 0 {
        Ok(Seq::empty())
    } else {
        match spec_from_content_encoding(spec_trim(ts.first())) {
            None => Err(spec_trim(ts.first())),
            Some(c) => match spec_codecs_of_tokens(ts.drop_first()) {
                Ok(rest) => Ok(seq![c] + rest),
                Err(e) => Err(e),
            },
        }
    }
}

/// The codec chain named by a content-encoding header value, in declared
/// order; `Err` carries the first token that resolves to no codec.
pub open spec fn spec_parse_content_encoding(header: Seq<char>) -> Result<
    Seq<Compression>,
    Seq<char>,
> {
    spec_codecs_of_tokens(spec_split_commas(header))
}

/// Splits a content-encoding header value on commas, trims each token,
/// and maps every token to its codec. Fails on the first token that
/// resolves to no codec, returning that token.
pub fn parse_content_encoding(header: &str) -> (r: Result<Vec<Compression>, String>)
    ensures
        match r {
            Ok(chain) => spec_parse_content_encoding(header@) == Ok::<Seq<Compression>, Seq<char>>(
                chain@,
            ),
            Err(tok) => spec_parse_content_encoding(header@) == Err::<Seq<Compression>, Seq<char>>(
                tok@,
            ),
        },
{
    let tokens = split_commas(header);
    let ghost toks = tokens.deep_view();
    let mut chain: Vec<Compression> = Vec::new();
    let mut i: usize = 0;
    proof {
        assert(toks.skip(0) =~~= toks);
        if spec_codecs_of_tokens(toks) is Ok {
            assert(chain@ + spec_codecs_of_tokens(toks)->Ok_0 =~= spec_codecs_of_tokens(
                toks,
            )->Ok_0);
        }
    }
    while i < tokens.len()
        invariant
            i <= tokens.len(),
            toks == tokens.deep_view(),
            toks == spec_split_commas(header@),
            toks.len() == tokens@.len(),
            forall|j: int| 0 <= j < toks.len() ==> toks[j] == #[trigger] tokens@[j]@,
            spec_codecs_of_tokens(toks) == match spec_codecs_of_tokens(toks.skip(i as int)) {
                Ok(rest) => Ok::<Seq<Compression>, Seq<char>>(chain@ + rest),
                Err(e) => Err::<Seq<Compression>, Seq<char>>(e),
            },
        decreases tokens.len() - i,
    {
        let trimmed = str_trim(tokens[i].as_str());
        proof {
            assert(toks.skip(i as int).first() == toks[i as int]);
            assert(toks.skip(i as int).drop_first() =~= toks.skip(i as int + 1));
        }
        match Compression::from_content_encoding(trimmed.as_str()) {
            None => {
                proof {
                    assert(spec_codecs_of_tokens(toks.skip(i as int)) == Err::<
                        Seq<Compression>,
                        Seq<char>,
                    >(trimmed@));
                }
                return Err(trimmed);
            },
            Some(c) => {
                let ghost prev = chain@;
                chain.push(c);
                proof {
                    if spec_codecs_of_tokens(toks.skip(i as int + 1)) is Ok {
                        let rest = spec_codecs_of_tokens(toks.skip(i as int + 1))->Ok_0;
                        assert(prev + (seq![c] + rest) =~= chain@ + rest);
                    }
                }
            },
        }
        i += 1;
    }
    proof {
        assert(toks.skip(i as int).len() == 0);
        assert(chain@ + Seq::<Compression>::empty() =~= chain@);
    }
    Ok(chain)
}

} // verus!
