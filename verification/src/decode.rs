//! The decode chain builder: applies a codec chain to staged bytes,
//! unwrapping the declared chain from the last-declared layer inward.
//!
//! The decompressors themselves come from the `async_compression` crate;
//! each is reached through one trusted wrapper whose result is named by
//! an uninterpreted function of the input bytes alone.

use vstd::prelude::*;

use crate::codec::Compression;

verus! {

/// What Brotli decompression yields on these exact bytes, or `None` if
/// they are not a well-formed Brotli stream.
pub uninterp spec fn brotli_decoded(s: Seq<u8>) -> Option<Seq<u8>>;

/// What Gzip decompression yields on these exact bytes, or `None` if
/// they are not a well-formed Gzip stream.
pub uninterp spec fn gzip_decoded(s: Seq<u8>) -> Option<Seq<u8>>;

/// What Xz decompression yields on these exact bytes, or `None` if they
/// are not a well-formed Xz stream.
pub uninterp spec fn xz_decoded(s: Seq<u8>) -> Option<Seq<u8>>;

/// What Zstd decompression yields on these exact bytes, or `None` if
/// they are not a well-formed Zstd stream.
pub uninterp spec fn zstd_decoded(s: Seq<u8>) -> Option<Seq<u8>>;

/// Relies on async_compression's BrotliDecoder: decoding a byte buffer
/// is a function of the bytes alone; corrupt input fails.
#[verifier::external_body]
fn decode_brotli(input: &[u8]) -> (r: Option<Vec<u8>>)
    ensures
        r is Some <==> brotli_decoded(input@) is Some,
        r is Some ==> r->Some_0@ == brotli_decoded(input@)->Some_0,
{
    let mut decoder = async_compression::futures::bufread::BrotliDecoder::new(input);
    let mut out = Vec::new();
    match futures::executor::block_on(futures::io::AsyncReadExt::read_to_end(&mut decoder, &mut out)) {
        Ok(_) => Some(out),
        Err(_) => None,
    }
}

/// Relies on async_compression's GzipDecoder: decoding a byte buffer is
/// a function of the bytes alone; corrupt input fails.
#[verifier::external_body]
fn decode_gzip(input: &[u8]) -> (r: Option<Vec<u8>>)
    ensures
        r is Some <==> gzip_decoded(input@) is Some,
        r is Some ==> r->Some_0@ == gzip_decoded(input@)->Some_0,
{
    let mut decoder = async_compression::futures::bufread::GzipDecoder::new(input);
    let mut out = Vec::new();
    match futures::executor::block_on(futures::io::AsyncReadExt::read_to_end(&mut decoder, &mut out)) {
        Ok(_) => Some(out),
        Err(_) => None,
    }
}

/// Relies on async_compression's XzDecoder: decoding a byte buffer is a
/// function of the bytes alone; corrupt input fails.
#[verifier::external_body]
fn decode_xz(input: &[u8]) -> (r: Option<Vec<u8>>)
    ensures
        r is Some <==> xz_decoded(input@) is Some,
        r is Some ==> r->Some_0@ == xz_decoded(input@)->Some_0,
{
    let mut decoder = async_compression::futures::bufread::XzDecoder::new(input);
    let mut out = Vec::new();
    match futures::executor::block_on(futures::io::AsyncReadExt::read_to_end(&mut decoder, &mut out)) {
        Ok(_) => Some(out),
        Err(_) => None,
    }
}

/// Relies on async_compression's ZstdDecoder: decoding a byte buffer is
/// a function of the bytes alone; corrupt input fails.
#[verifier::external_body]
fn decode_zstd(input: &[u8]) -> (r: Option<Vec<u8>>)
    ensures
        r is Some <==> zstd_decoded(input@) is Some,
        r is Some ==> r->Some_0@ == zstd_decoded(input@)->Some_0,
{
    let mut decoder = async_compression::futures::bufread::ZstdDecoder::new(input);
    let mut out = Vec::new();
    match futures::executor::block_on(futures::io::AsyncReadExt::read_to_end(&mut decoder, &mut out)) {
        Ok(_) => Some(out),
        Err(_) => None,
    }
}

/// What one codec yields on these exact bytes.
pub open spec fn spec_codec_decoded(c: Compression, s: Seq<u8>) -> Option<Seq<u8>> {
    match c {
        Compression::Brotli => brotli_decoded(s),
        Compression::Gzip => gzip_decoded(s),
        Compression::Xz => xz_decoded(s),
        Compression::Zstd => zstd_decoded(s),
    }
}

/// What the whole declared chain yields: the last-declared codec is
/// unwrapped first, then the rest of the chain on its output; an empty
/// chain yields the input unchanged. `Err` names the codec that failed.
pub open spec fn spec_chain_decoded(chain: Seq<Compression>, s: Seq<u8>) -> Result<
    Seq<u8>,
    Compression,
>
    decreases chain.len(),
{
    if chain.len() == 0 {
        Ok(s)
    } else {
        match spec_codec_decoded(chain.last(), s) {
            None => Err(chain.last()),
            Some(t) => spec_chain_decoded(chain.drop_last(), t),
        }
    }
}

/// Applies one codec to a byte buffer.
fn decode_codec(c: Compression, data: &Vec<u8>) -> (r: Option<Vec<u8>>)
    ensures
        r is Some <==> spec_codec_decoded(c, data@) is Some,
        r is Some ==> r->Some_0@ == spec_codec_decoded(c, data@)->Some_0,
{
    match c {
        Compression::Brotli => decode_brotli(data.as_slice()),
        Compression::Gzip => decode_gzip(data.as_slice()),
        Compression::Xz => decode_xz(data.as_slice()),
        Compression::Zstd => decode_zstd(data.as_slice()),
    }
}

/// Decodes staged bytes through the declared codec chain, unwrapping the
/// chain from the last-declared layer inward. An empty chain returns the
/// bytes unchanged; `Err` names the codec whose decoder rejected its
/// input.
pub fn decode_chain(chain: &Vec<Compression>, data: &Vec<u8>) -> (r: Result<Vec<u8>, Compression>)
    ensures
        match r {
            Ok(out) => spec_chain_decoded(chain@, data@) == Ok::<Seq<u8>, Compression>(out@),
            Err(c) => spec_chain_decoded(chain@, data@) == Err::<Seq<u8>, Compression>(c),
        },
{
    let mut buf = data.clone();
    let mut i: usize = chain.len();
    proof {
        assert(chain@.take(chain@.len() as int) =~= chain@);
    }
    while i > 0
        invariant
            i <= chain@.len(),
            spec_chain_decoded(chain@, data@) == spec_chain_decoded(chain@.take(i as int), buf@),
        decreases i,
    {
        proof {
            assert(chain@.take(i as int).last() == chain@[i as int - 1]);
            assert(chain@.take(i as int).drop_last() =~= chain@.take(i as int - 1));
        }
        match decode_codec(chain[i - 1], &buf) {
            None => {
                proof {
                    assert(spec_chain_decoded(chain@, data@) == Err::<Seq<u8>, Compression>(
                        chain@[i as int - 1],
                    ));
                }
                return Err(chain[i - 1]);
            },
            Some(out) => {
                buf = out;
            },
        }
        i -= 1;
    }
    proof {
        assert(chain@.take(0).len() == 0);
    }
    Ok(buf)
}

/// The identity law: an empty codec chain decodes any payload to itself.
pub proof fn lemma_empty_chain_identity(s: Seq<u8>)
    ensures
        spec_chain_decoded(Seq::empty(), s) == Ok::<Seq<u8>, Compression>(s),
{
}

/// The reverse-order law: a chain declared `a, b` unwraps `b` before
/// `a` — the output of `b`'s decoder is what `a`'s decoder sees.
pub proof fn lemma_two_codec_order(a: Compression, b: Compression, s: Seq<u8>)
    ensures
        spec_chain_decoded(seq![a, b], s) == match spec_codec_decoded(b, s) {
            None => Err::<Seq<u8>, Compression>(b),
            Some(t) => match spec_codec_decoded(a, t) {
                None => Err::<Seq<u8>, Compression>(a),
                Some(u) => Ok::<Seq<u8>, Compression>(u),
            },
        },
{
    assert(seq![a, b].last() == b);
    assert(seq![a, b].drop_last() =~= seq![a]);
    assert(seq![a].last() == a);
    assert(seq![a].drop_last() =~= Seq::<Compression>::empty());
    match spec_codec_decoded(b, s) {
        None => {
            assert(spec_chain_decoded(seq![a, b], s) == Err::<Seq<u8>, Compression>(b));
        },
        Some(t) => {
            assert(spec_chain_decoded(seq![a, b], s) == spec_chain_decoded(seq![a], t));
            match spec_codec_decoded(a, t) {
                None => {
                    assert(spec_chain_decoded(seq![a], t) == Err::<Seq<u8>, Compression>(a));
                },
                Some(u) => {
                    assert(spec_chain_decoded(seq![a], t) == spec_chain_decoded(
                        Seq::<Compression>::empty(),
                        u,
                    ));
                    assert(spec_chain_decoded(Seq::<Compression>::empty(), u) == Ok::<
                        Seq<u8>,
                        Compression,
                    >(u));
                },
            }
        },
    }
}

} // verus!
