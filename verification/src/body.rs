//! The decisions of the loops that move body bytes between the client and
//! the host: reading a response body, and writing a request body, or a chunk
//! of the asynchronous body sink, in the pieces the output stream permits,
//! with the laws of whole runs of those loops.
use vstd::prelude::*;
use crate::error::{failure_point, Error, Kind};

verus! {

/// What one read of the response body stream gave.
pub enum ReadOutcome {
    /// Some bytes (possibly none).
    Chunk(Vec<u8>),
    /// The stream is closed: the body is complete.
    Closed,
    /// The read failed.
    Failed,
}

/// What the read loop does next.
pub enum ReadStep {
    /// Read again.
    Continue,
    /// The body is complete.
    Finished,
    /// Stop with this error.
    Failed(Error),
}

/// The message of the error for a failed body read.
pub open spec fn read_failed_message() -> Seq<char> {
    "input_stream read failed"@
}

/// The body after one read outcome.
pub open spec fn body_after(body: Seq<u8>, outcome: ReadOutcome) -> Seq<u8> {
    match outcome {
        ReadOutcome::Chunk(c) => body + c@,
        _ => body,
    }
}

/// Takes one read outcome into the body: a chunk is appended and reading
/// goes on, a closed stream ends the body, a failure ends reading with an
/// error.
pub fn read_step(body: &mut Vec<u8>, outcome: ReadOutcome) -> (s: ReadStep)
    ensures
        final(body)@ == body_after(old(body)@, outcome),
        outcome is Chunk <==> s is Continue,
        outcome is Closed <==> s is Finished,
        outcome is Failed ==> (s matches ReadStep::Failed(e) && e.kind() == Kind::Request
            && e.message_view() == read_failed_message()),
{
    match outcome {
        ReadOutcome::Chunk(mut chunk) => {
            body.append(&mut chunk);
            ReadStep::Continue
        },
        ReadOutcome::Closed => ReadStep::Finished,
        ReadOutcome::Failed => ReadStep::Failed(failure_point("input_stream read failed")),
    }
}

/// The body after a run of chunks.
pub open spec fn body_after_chunks(body: Seq<u8>, chunks: Seq<Vec<u8>>) -> Seq<u8>
    decreases chunks.len(),
{
    if chunks.len() == 0 {
        body
    } else {
        body_after(body_after_chunks(body, chunks.drop_last()), ReadOutcome::Chunk(chunks.last()))
    }
}

/// The bytes of the chunks, one after the other.
pub open spec fn concat_chunks(chunks: Seq<Vec<u8>>) -> Seq<u8>
    decreases chunks.len(),
{
    if chunks.len() == 0 {
        Seq::empty()
    } else {
        concat_chunks(chunks.drop_last()) + chunks.last()@
    }
}

/// A body read from an empty start through a run of chunks is the chunks'
/// bytes in order; closing the stream afterwards leaves it as it is.
pub proof fn lemma_body_is_concatenation(chunks: Seq<Vec<u8>>)
    ensures
        body_after_chunks(Seq::empty(), chunks) == concat_chunks(chunks),
        body_after(body_after_chunks(Seq::empty(), chunks), ReadOutcome::Closed) == concat_chunks(chunks),
    decreases chunks.len(),
{
    if chunks.len() > 0 {
        lemma_body_is_concatenation(chunks.drop_last());
    }
}

/// How much the output stream accepts now.
pub enum WriteReadiness {
    /// This many bytes may be written.
    Permit(u64),
    /// The stream is closed.
    Closed,
    /// The stream failed.
    Failed,
}

/// How a flush or a write ended.
pub enum StreamOutcome {
    Done,
    Closed,
    Failed,
}

/// What the body sink does next with its current chunk.
pub enum SinkStep {
    /// Nothing may be written now: wait until the stream is ready.
    Wait,
    /// Flush the stream.
    Flush,
    /// Write the bytes of the chunk from `start` to `end`.
    Write { start: usize, end: usize },
    /// The chunk is done.
    Complete,
    /// The chunk failed with the stream's error.
    Fail,
}

/// The next step of a writer through a chunk of `len` bytes, of which
/// `offset` are written, given what the stream permits: wait while it
/// permits nothing; once the chunk is written, flush it and then complete;
/// else write as much of the rest as the stream permits. A closed stream
/// completes a chunk that is fully written and fails any other, and a failed
/// stream fails it.
pub open spec fn sink_step(len: usize, offset: usize, flushing: bool, ready: WriteReadiness) -> SinkStep {
    match ready {
        WriteReadiness::Permit(n) => {
            if n == 0 {
                SinkStep::Wait
            } else if offset == len {
                if flushing {
                    SinkStep::Complete
                } else {
                    SinkStep::Flush
                }
            } else {
                SinkStep::Write {
                    start: offset,
                    end: if n < len - offset {
                        (offset + n) as usize
                    } else {
                        len
                    },
                }
            }
        },
        WriteReadiness::Closed => if offset == len {
            SinkStep::Complete
        } else {
            SinkStep::Fail
        },
        WriteReadiness::Failed => SinkStep::Fail,
    }
}

/// A failed stream fails the chunk, whatever the writer's progress.
pub proof fn lemma_failed_stream_fails_chunk(len: usize, offset: usize, flushing: bool)
    ensures
        sink_step(len, offset, flushing, WriteReadiness::Failed) == SinkStep::Fail,
{
}

/// A chunk is reported complete only in two cases: the stream permits more
/// bytes after the fully written chunk was flushed, or the stream is closed
/// once the whole chunk was written. A stream that failed, or a chunk with
/// bytes left, is never complete.
pub proof fn lemma_complete_only_when_written(len: usize, offset: usize, flushing: bool, ready: WriteReadiness)
    ensures
        sink_step(len, offset, flushing, ready) is Complete ==> offset == len && ((ready matches WriteReadiness::Permit(
            n,
        ) && n > 0 && flushing) || ready is Closed),
        offset < len ==> !(sink_step(len, offset, flushing, ready) is Complete),
        ready is Failed ==> !(sink_step(len, offset, flushing, ready) is Complete),
{
}

/// Where the stream permits bytes and some of the chunk is left, the
/// writer writes from where it stands as many bytes as permitted, or all
/// that is left where that is fewer.
pub proof fn lemma_write_takes_permitted_bytes(len: usize, offset: usize, flushing: bool, n: u64)
    requires
        offset < len,
        n > 0,
    ensures
        sink_step(len, offset, flushing, WriteReadiness::Permit(n)) matches SinkStep::Write { start, end }
            && start == offset && end - start == (if n < len - offset {
            n as int
        } else {
            len - offset
        }),
{
}

/// Where a writer stands in a run over one chunk on a stream that never
/// fails: how many bytes it wrote, whether it flushed, the bytes handed to
/// the stream in order, how many flushes it asked for, and whether the chunk
/// is complete.
pub struct SinkRun {
    pub offset: usize,
    pub flushing: bool,
    pub written: Seq<u8>,
    pub flushes: nat,
    pub done: bool,
}

/// A writer at the start of a chunk.
pub open spec fn run_start() -> SinkRun {
    SinkRun { offset: 0, flushing: false, written: Seq::empty(), flushes: 0, done: false }
}

/// One turn of the sink loop with `ChunkWriter`: the stream permits `n`
/// bytes, `next_step` decides, and the write or flush it asks for succeeds
/// (`wrote` or `flushed` with `StreamOutcome::Done`).
pub open spec fn run_step(chunk: Seq<u8>, r: SinkRun, n: u64) -> SinkRun {
    if r.done {
        r
    } else {
        match sink_step(chunk.len() as usize, r.offset, r.flushing, WriteReadiness::Permit(n)) {
            SinkStep::Write { start, end } => SinkRun {
                offset: end,
                written: r.written + chunk.subrange(start as int, end as int),
                ..r
            },
            SinkStep::Flush => SinkRun { flushing: true, flushes: r.flushes + 1, ..r },
            SinkStep::Complete => SinkRun { done: true, ..r },
            _ => r,
        }
    }
}

/// The writer after the stream permitted `permits`, one turn each.
pub open spec fn run_chunk(chunk: Seq<u8>, permits: Seq<u64>) -> SinkRun
    decreases permits.len(),
{
    if permits.len() == 0 {
        run_start()
    } else {
        run_step(chunk, run_chunk(chunk, permits.drop_last()), permits.last())
    }
}

/// In every run over a chunk, the bytes handed to the stream are the start
/// of the chunk in order, at most one flush is asked for and only once the
/// whole chunk is written, and a complete chunk was written exactly once
/// and flushed exactly once.
pub proof fn lemma_run_writes_chunk_in_order(chunk: Seq<u8>, permits: Seq<u64>)
    requires
        chunk.len() <= usize::MAX,
        forall|i: int| 0 <= i < permits.len() ==> permits[i] <= usize::MAX,
    ensures
        run_chunk(chunk, permits).offset <= chunk.len(),
        run_chunk(chunk, permits).written == chunk.take(run_chunk(chunk, permits).offset as int),
        run_chunk(chunk, permits).flushes <= 1,
        run_chunk(chunk, permits).flushing <==> run_chunk(chunk, permits).flushes == 1,
        run_chunk(chunk, permits).flushing ==> run_chunk(chunk, permits).offset == chunk.len(),
        run_chunk(chunk, permits).done ==> run_chunk(chunk, permits).written == chunk
            && run_chunk(chunk, permits).flushes == 1,
    decreases permits.len(),
{
    if permits.len() > 0 {
        let init = permits.drop_last();
        lemma_run_writes_chunk_in_order(chunk, init);
        let r = run_chunk(chunk, init);
        let n = permits.last();
        match sink_step(chunk.len() as usize, r.offset, r.flushing, WriteReadiness::Permit(n)) {
            SinkStep::Write { start, end } => {
                assert(chunk.take(r.offset as int) + chunk.subrange(start as int, end as int) =~= chunk.take(end as int));
            },
            _ => {},
        }
    }
    assert(chunk.take(chunk.len() as int) =~= chunk);
}

/// How far a run has come: bytes written, plus one once it flushed.
pub open spec fn run_progress(r: SinkRun) -> int {
    r.offset + if r.flushing { 1int } else { 0int }
}

proof fn lemma_run_progress(chunk: Seq<u8>, permits: Seq<u64>)
    requires
        chunk.len() <= usize::MAX,
        forall|i: int| 0 <= i < permits.len() ==> 1 <= #[trigger] permits[i] <= usize::MAX,
    ensures
        run_chunk(chunk, permits).done || run_progress(run_chunk(chunk, permits)) >= permits.len(),
    decreases permits.len(),
{
    if permits.len() > 0 {
        let init = permits.drop_last();
        lemma_run_progress(chunk, init);
        lemma_run_writes_chunk_in_order(chunk, init);
    }
}

/// A run in which the stream permits at least one byte each turn completes
/// the chunk within its length plus two turns.
pub proof fn lemma_run_completes(chunk: Seq<u8>, permits: Seq<u64>)
    requires
        chunk.len() <= usize::MAX,
        forall|i: int| 0 <= i < permits.len() ==> 1 <= #[trigger] permits[i] <= usize::MAX,
        permits.len() >= chunk.len() + 2,
    ensures
        run_chunk(chunk, permits).done,
        run_chunk(chunk, permits).written == chunk,
{
    lemma_run_progress(chunk, permits);
    lemma_run_writes_chunk_in_order(chunk, permits);
}

/// The bytes that runs over a sequence of chunks hand to the stream, one
/// run after the other.
pub open spec fn runs_written(chunks: Seq<Seq<u8>>, permits: Seq<Seq<u64>>) -> Seq<u8>
    decreases chunks.len(),
{
    if chunks.len() == 0 || permits.len() != chunks.len() {
        Seq::empty()
    } else {
        runs_written(chunks.drop_last(), permits.drop_last()) + run_chunk(chunks.last(), permits.last()).written
    }
}

/// The chunks' bytes, one after the other.
pub open spec fn concat_seqs(chunks: Seq<Seq<u8>>) -> Seq<u8>
    decreases chunks.len(),
{
    if chunks.len() == 0 {
        Seq::empty()
    } else {
        concat_seqs(chunks.drop_last()) + chunks.last()
    }
}

/// When each chunk sent to the sink completes, the stream received the
/// chunks' bytes exactly, in the order they were sent.
pub proof fn lemma_runs_concatenate(chunks: Seq<Seq<u8>>, permits: Seq<Seq<u64>>)
    requires
        permits.len() == chunks.len(),
        forall|i: int| 0 <= i < chunks.len() ==> (#[trigger] chunks[i]).len() <= usize::MAX,
        forall|i: int, j: int| 0 <= i < permits.len() && 0 <= j < permits[i].len() ==> #[trigger] permits[i][j] <= usize::MAX,
        forall|i: int| 0 <= i < chunks.len() ==> #[trigger] run_chunk(chunks[i], permits[i]).done,
    ensures
        runs_written(chunks, permits) == concat_seqs(chunks),
    decreases chunks.len(),
{
    if chunks.len() > 0 {
        let k = chunks.len() - 1;
        assert(chunks.drop_last().len() == permits.drop_last().len());
        assert forall|i: int| 0 <= i < chunks.drop_last().len() implies #[trigger] run_chunk(chunks.drop_last()[i], permits.drop_last()[i]).done by {
            assert(chunks.drop_last()[i] == chunks[i]);
            assert(permits.drop_last()[i] == permits[i]);
            assert(run_chunk(chunks[i], permits[i]).done);
        }
        assert forall|i: int| 0 <= i < chunks.drop_last().len() implies (#[trigger] chunks.drop_last()[i]).len() <= usize::MAX by {
            assert(chunks.drop_last()[i] == chunks[i]);
        }
        assert forall|i: int, j: int| 0 <= i < permits.drop_last().len() && 0 <= j < permits.drop_last()[i].len() implies #[trigger] permits.drop_last()[i][j] <= usize::MAX by {
            assert(permits.drop_last()[i] == permits[i]);
        }
        lemma_runs_concatenate(chunks.drop_last(), permits.drop_last());
        assert(run_chunk(chunks[k], permits[k]).done);
        assert forall|j: int| 0 <= j < permits[k].len() implies permits[k][j] <= usize::MAX by {
            assert(permits[k][j] <= usize::MAX);
        }
        lemma_run_writes_chunk_in_order(chunks[k], permits[k]);
    }
}

/// The progress of the body sink through one chunk of `len` bytes: how many
/// bytes were written and whether the stream is being flushed.
pub struct ChunkWriter {
    len: usize,
    offset: usize,
    flushing: bool,
}

impl ChunkWriter {
    #[verifier::type_invariant]
    spec fn wf(self) -> bool {
        self.offset <= self.len
    }

    pub closed spec fn len_spec(&self) -> usize {
        self.len
    }

    pub closed spec fn offset_spec(&self) -> usize {
        self.offset
    }

    pub closed spec fn flushing_spec(&self) -> bool {
        self.flushing
    }

    /// A writer at the start of a chunk of `len` bytes.
    pub fn new(len: usize) -> (w: ChunkWriter)
        ensures
            w.len_spec() == len,
            w.offset_spec() == 0,
            !w.flushing_spec(),
    {
        ChunkWriter { len, offset: 0, flushing: false }
    }

    /// How many bytes of the chunk were written.
    pub fn offset(&self) -> (o: usize)
        ensures
            o == self.offset_spec(),
            o <= self.len_spec(),
    {
        proof {
            use_type_invariant(self);
        }
        self.offset
    }

    /// The next step, given what the stream permits: wait while it permits
    /// nothing; once the chunk is written, flush it and then complete; else
    /// write as much of the rest as the stream permits. A closed stream
    /// completes a chunk that is fully written and fails any other, and a
    /// failed stream fails it.
    pub fn next_step(&self, ready: WriteReadiness) -> (s: SinkStep)
        requires
            ready matches WriteReadiness::Permit(n) ==> n <= usize::MAX,
        ensures
            self.offset_spec() <= self.len_spec(),
            s == sink_step(self.len_spec(), self.offset_spec(), self.flushing_spec(), ready),
            s matches SinkStep::Write { start, end } ==> (ready matches WriteReadiness::Permit(n)
                && start == self.offset_spec() && start < end && end <= self.len_spec() && end - start <= n),
            s is Complete ==> self.offset_spec() == self.len_spec(),
    {
        proof {
            use_type_invariant(self);
        }
        match ready {
            WriteReadiness::Permit(n) => {
                if n == 0 {
                    SinkStep::Wait
                } else if self.offset == self.len {
                    if self.flushing {
                        SinkStep::Complete
                    } else {
                        SinkStep::Flush
                    }
                } else {
                    let count: usize = n as usize;
                    let remaining: usize = self.len - self.offset;
                    let step: usize = if count < remaining {
                        count
                    } else {
                        remaining
                    };
                    SinkStep::Write { start: self.offset, end: self.offset + step }
                }
            },
            WriteReadiness::Closed => {
                if self.offset == self.len {
                    SinkStep::Complete
                } else {
                    SinkStep::Fail
                }
            },
            WriteReadiness::Failed => SinkStep::Fail,
        }
    }

    /// Takes the outcome of a flush of the fully written chunk (a flush is
    /// only asked for once every byte of the chunk was written): a finished
    /// flush is remembered and the loop goes on; a closed stream completes
    /// the chunk; a failure fails it.
    pub fn flushed(&mut self, outcome: StreamOutcome) -> (s: Option<SinkStep>)
        requires
            old(self).offset_spec() == old(self).len_spec(),
        ensures
            final(self).len_spec() == old(self).len_spec(),
            final(self).offset_spec() == old(self).offset_spec(),
            outcome is Done ==> s is None && final(self).flushing_spec(),
            outcome is Closed ==> s == Some(SinkStep::Complete) && final(self).flushing_spec() == old(
                self,
            ).flushing_spec(),
            outcome is Failed ==> s == Some(SinkStep::Fail) && final(self).flushing_spec() == old(
                self,
            ).flushing_spec(),
    {
        proof {
            use_type_invariant(&*self);
        }
        match outcome {
            StreamOutcome::Done => {
                self.flushing = true;
                None
            },
            StreamOutcome::Closed => Some(SinkStep::Complete),
            StreamOutcome::Failed => Some(SinkStep::Fail),
        }
    }

    /// Takes the outcome of writing the chunk up to `end`: a finished write
    /// moves the offset there and the loop goes on; any other outcome fails
    /// the chunk.
    pub fn wrote(&mut self, end: usize, outcome: StreamOutcome) -> (s: Option<SinkStep>)
        requires
            old(self).offset_spec() <= end <= old(self).len_spec(),
        ensures
            final(self).len_spec() == old(self).len_spec(),
            final(self).flushing_spec() == old(self).flushing_spec(),
            outcome is Done ==> s is None && final(self).offset_spec() == end,
            !(outcome is Done) ==> s == Some(SinkStep::Fail) && final(self).offset_spec() == old(
                self,
            ).offset_spec(),
    {
        proof {
            use_type_invariant(&*self);
        }
        match outcome {
            StreamOutcome::Done => {
                self.offset = end;
                None
            },
            _ => Some(SinkStep::Fail),
        }
    }
}

} // verus!
