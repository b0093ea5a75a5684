//! The byte stream and the staging sink: a single-pass sequence of chunk
//! deliveries is drained, in arrival order, into a staged artifact that
//! can later be re-read as a random-access byte source.

use vstd::prelude::*;

use crate::errors::PipelineError;

verus! {

/// One delivery from the single-pass byte stream: a chunk of bytes, or
/// the I/O failure that terminates the stream.
#[derive(Debug)]
pub enum ChunkResult {
    Data(Vec<u8>),
    Failed,
}

/// What staging yields from a sequence of deliveries: the concatenation
/// of the chunks, in arrival order, or nothing if any delivery fails.
pub open spec fn spec_drained(chunks: Seq<ChunkResult>) -> Option<Seq<u8>>
    decreases chunks.len(),
{
    if chunks.len() == 0 {
        Some(Seq::empty())
    } else {
        match chunks.first() {
            ChunkResult::Failed => None,
            ChunkResult::Data(d) => match spec_drained(chunks.drop_first()) {
                None => None,
                Some(rest) => Some(d@ + rest),
            },
        }
    }
}

/// A delivery failure anywhere in the stream loses the whole staging:
/// nothing is drained from a stream that fails at any point.
pub proof fn lemma_failed_stream_drains_nothing(chunks: Seq<ChunkResult>)
    requires
        exists|i: int| 0 <= i < chunks.len() && chunks[i] is Failed,
    ensures
        spec_drained(chunks) is None,
    decreases chunks.len(),
{
    let i = choose|i: int| 0 <= i < chunks.len() && chunks[i] is Failed;
    if i > 0 {
        assert(chunks.drop_first()[i - 1] is Failed);
        lemma_failed_stream_drains_nothing(chunks.drop_first());
    }
}

/// A single-pass byte stream: each delivery is handed out once, in
/// order, and the stream cannot be replayed.
pub struct StreamWrapper {
    chunks: Vec<ChunkResult>,
    pos: usize,
}

impl StreamWrapper {
    /// The full sequence of deliveries behind the stream.
    pub closed spec fn spec_chunks(self) -> Seq<ChunkResult> {
        self.chunks@
    }

    /// How many deliveries have been handed out already.
    pub closed spec fn spec_pos(self) -> int {
        self.pos as int
    }

    /// The deliveries the stream will still hand out.
    pub open spec fn spec_remaining(self) -> Seq<ChunkResult> {
        self.spec_chunks().skip(self.spec_pos())
    }

    pub open spec fn wf(self) -> bool {
        0 <= self.spec_pos() <= self.spec_chunks().len()
    }

    /// Wraps a sequence of deliveries as a fresh single-pass stream.
    pub fn new(inner: Vec<ChunkResult>) -> (r: StreamWrapper)
        ensures
            r.wf(),
            r.spec_chunks() == inner@,
            r.spec_pos() == 0,
    {
        StreamWrapper { chunks: inner, pos: 0 }
    }

    /// Hands out the next delivery, or `None` at the end of the stream.
    pub fn next(&mut self) -> (r: Option<&ChunkResult>)
        requires
            old(self).wf(),
        ensures
            final(self).wf(),
            final(self).spec_chunks() == old(self).spec_chunks(),
            old(self).spec_remaining().len() == 0 ==> r is None && final(self).spec_pos() == old(
                self,
            ).spec_pos(),
            old(self).spec_remaining().len() > 0 ==> final(self).spec_pos() == old(self).spec_pos() + 1
                && (match r {
                Some(c) => *c == old(self).spec_remaining().first(),
                None => false,
            }),
    {
        if self.pos < self.chunks.len() {
            let i = self.pos;
            self.pos = i + 1;
            Some(&self.chunks[i])
        } else {
            None
        }
    }
}

/// Temporary storage with a two-phase lifecycle: open for sequential
/// appends first, then converted one-way into a re-readable byte source.
pub struct StagedArtifact {
    data: Vec<u8>,
}

impl StagedArtifact {
    /// The bytes appended so far, in arrival order.
    pub closed spec fn spec_data(self) -> Seq<u8> {
        self.data@
    }

    /// A fresh artifact, open for appends, holding nothing.
    pub fn create() -> (r: StagedArtifact)
        ensures
            r.spec_data() == Seq::<u8>::empty(),
    {
        StagedArtifact { data: Vec::new() }
    }

    /// Appends one chunk at the end of the artifact.
    pub fn append(&mut self, chunk: &[u8])
        ensures
            final(self).spec_data() == old(self).spec_data() + chunk@,
    {
        self.data.extend_from_slice(chunk);
    }

    /// Seals the artifact and opens it for reading; the one-way phase
    /// transition, after which no append is possible.
    pub fn into_read(self) -> (r: Vec<u8>)
        ensures
            r@ == self.spec_data(),
    {
        self.data
    }
}

/// The staging sink: drains the stream into a fresh staged artifact,
/// appending each chunk in arrival order. The first failed delivery
/// aborts the whole run with a transport error; nothing of the stream is
/// consumed past it.
pub fn stage_stream(stream: &mut StreamWrapper) -> (r: Result<StagedArtifact, PipelineError>)
    requires
        old(stream).wf(),
    ensures
        final(stream).wf(),
        match r {
            Ok(staged) => spec_drained(old(stream).spec_remaining()) == Some(staged.spec_data()),
            Err(e) => e == PipelineError::Transport && spec_drained(old(stream).spec_remaining())
                is None,
        },
{
    let ghost rem0 = old(stream).spec_remaining();
    let mut staged = StagedArtifact::create();
    proof {
        assert(Seq::<u8>::empty() + spec_drained(rem0)->Some_0 =~= spec_drained(rem0)->Some_0);
    }
    loop
        invariant
            stream.wf(),
            stream.spec_chunks() == old(stream).spec_chunks(),
            old(stream).spec_pos() <= stream.spec_pos(),
            match spec_drained(stream.spec_remaining()) {
                Some(rest) => spec_drained(rem0) == Some(staged.spec_data() + rest),
                None => spec_drained(rem0) is None,
            },
            rem0 == old(stream).spec_remaining(),
        decreases stream.spec_remaining().len(),
    {
        let ghost rem_now = stream.spec_remaining();
        match stream.next() {
            None => {
                proof {
                    assert(rem_now.len() == 0);
                    assert(staged.spec_data() + Seq::<u8>::empty() =~= staged.spec_data());
                }
                return Ok(staged);
            },
            Some(chunk) => {
                match chunk {
                    ChunkResult::Failed => {
                        return Err(PipelineError::Transport);
                    },
                    ChunkResult::Data(d) => {
                        let ghost prev = staged.spec_data();
                        let ghost dbytes = d@;
                        proof {
                            assert(rem_now.first() matches ChunkResult::Data(v) && v@ == dbytes);
                        }
                        staged.append(d.as_slice());
                        proof {
                            assert(rem_now.drop_first() =~= stream.spec_remaining());
                            if spec_drained(stream.spec_remaining()) is Some {
                                let rest = spec_drained(stream.spec_remaining())->Some_0;
                                assert(spec_drained(rem_now) == Some(dbytes + rest));
                                assert(prev + (dbytes + rest) =~= staged.spec_data() + rest);
                            }
                        }
                    },
                }
            },
        }
    }
}

} // verus!
