//! The two symmetric copy adapters of a tunnel session.
//!
//! `StreamReaderCopy` turns a readable socket half into a finite sequence of
//! chunks; `StreamWriterCopy` drains an inbound chunk sequence into a writable
//! socket half. Both are written as step machines: the surrounding runtime
//! performs one read, write or stream pull at a time and feeds the outcome
//! back in, so the logic here is independent of how the I/O suspends and
//! resumes.
//!
//! Error policy: a failed source read surfaces as an explicit `Failed` stream
//! item, and the consuming writer terminates with that error. A driver whose
//! transport has no channel for mid-stream errors may instead end the
//! sequence at the first `Failed` item, which truncates the stream but never
//! corrupts it.

use vstd::prelude::*;
use vstd::slice::slice_subrange;
use vstd::slice::slice_to_vec;

use crate::chunk::chunk_bytes;
use crate::chunk::concat_of;
use crate::chunk::lemma_concat_append;
use crate::chunk::lemma_concat_push;
use crate::chunk::payloads_of;
use crate::chunk::Chunk;
use crate::chunk::CHUNK_CAPACITY;
use crate::TunnelError;

verus! {

/// One item of an inbound chunk sequence: a payload, a stream-level error
/// carrying its textual cause, or the end of the sequence.
pub enum StreamItem {
    Payload(Chunk),
    Failed(String),
    Finished,
}

/// The outcome of one read from a socket half: the number of bytes placed in
/// the scratch buffer, or a textual description of the failure.
pub enum ReadOutcome {
    Bytes(usize),
    ReadError(String),
}

/// The three live states of the writer's step machine.
///
/// `Filling`: the buffer is fully drained and the source has not ended, so
/// the next stream item must be pulled. `Draining`: unwritten bytes remain in
/// the buffer. `Flushing`: everything pulled has been written and the source
/// has ended; one final flush completes the copy.
#[derive(PartialEq, Eq, Structural, Debug)]
pub enum WriterPhase {
    Filling,
    Draining,
    Flushing,
}

/// Consumes an inbound chunk sequence and hands its bytes, in order and
/// without loss or duplication, to a byte sink that may accept any non-zero
/// prefix of each offered buffer.
pub struct StreamWriterCopy {
    buf: Vec<u8>,
    pos: usize,
    cap: usize,
    read_done: bool,
    amt: u64,
    written: Ghost<Seq<u8>>,
}

/// A fresh writer: nothing buffered, nothing written, source still open.
pub fn stream_writer_copy() -> (w: StreamWriterCopy)
    ensures
        w.wf(),
        w.written_bytes() == Seq::<u8>::empty(),
        w.pending() == Seq::<u8>::empty(),
        !w.source_done(),
        w.phase() is Filling,
{
    let w = StreamWriterCopy {
        buf: Vec::new(),
        pos: 0,
        cap: 0,
        read_done: false,
        amt: 0,
        written: Ghost(Seq::empty()),
    };
    proof {
        assert(w.pending() =~= Seq::<u8>::empty());
    }
    w
}

impl StreamWriterCopy {
    /// The bytes already handed to the sink, in order.
    pub closed spec fn written_bytes(self) -> Seq<u8> {
        self.written@
    }

    /// The unwritten suffix of the active buffer.
    pub closed spec fn pending(self) -> Seq<u8> {
        self.buf@.skip(self.pos as int)
    }

    /// Whether the source sequence has reported its end.
    pub closed spec fn source_done(self) -> bool {
        self.read_done
    }

    /// Internal consistency: the cursor lies inside the buffer and the byte
    /// counter matches the written bytes.
    pub closed spec fn wf(self) -> bool {
        &&& self.pos <= self.cap
        &&& self.cap == self.buf@.len()
        &&& self.amt == self.written_bytes().len()
    }

    /// The current step-machine state, derived from the buffer and the
    /// end-of-source flag.
    pub open spec fn phase(self) -> WriterPhase {
        if self.pending().len() > 0 {
            WriterPhase::Draining
        } else if !self.source_done() {
            WriterPhase::Filling
        } else {
            WriterPhase::Flushing
        }
    }

    /// Reports which step the driver must perform next: pull an item, write
    /// the pending bytes, or flush and finish.
    pub fn current_phase(&self) -> (p: WriterPhase)
        requires
            self.wf(),
        ensures
            p == self.phase(),
    {
        if self.pos < self.cap {
            WriterPhase::Draining
        } else if !self.read_done {
            WriterPhase::Filling
        } else {
            WriterPhase::Flushing
        }
    }

    /// Takes the next item of the source sequence (the `Filling` step).
    ///
    /// A payload becomes the new active buffer in full; the end of the
    /// sequence is recorded; a stream-level error aborts the copy with that
    /// error, leaving the bytes written so far in place.
    pub fn accept(&mut self, item: StreamItem) -> (r: Result<(), TunnelError>)
        requires
            old(self).wf(),
            old(self).phase() is Filling,
        ensures
            final(self).wf(),
            final(self).written_bytes() == old(self).written_bytes(),
            match item {
                StreamItem::Payload(c) => {
                    &&& r is Ok
                    &&& final(self).pending() == c@
                    &&& !final(self).source_done()
                },
                StreamItem::Finished => {
                    &&& r is Ok
                    &&& final(self).pending() == Seq::<u8>::empty()
                    &&& final(self).source_done()
                },
                StreamItem::Failed(m) => {
                    &&& r matches Err(e) && e == TunnelError::Other(m)
                    &&& final(self).pending() == Seq::<u8>::empty()
                    &&& !final(self).source_done()
                },
            },
    {
        match item {
            StreamItem::Payload(c) => {
                let len: usize = c.data.len();
                self.buf = c.data;
                self.pos = 0;
                self.cap = len;
                proof {
                    assert(self.pending() =~= self.buf@);
                }
                Ok(())
            },
            StreamItem::Finished => {
                self.read_done = true;
                Ok(())
            },
            StreamItem::Failed(m) => Err(TunnelError::Other(m)),
        }
    }

    /// A copy of the unwritten suffix of the active buffer: what the driver
    /// offers to the sink next.
    pub fn pending_bytes(&self) -> (v: Vec<u8>)
        requires
            self.wf(),
        ensures
            v@ == self.pending(),
    {
        slice_to_vec(slice_subrange(self.buf.as_slice(), self.pos, self.cap))
    }

    /// Records that the sink accepted `n` bytes of the pending suffix (the
    /// `Draining` step).
    ///
    /// A partial write merely advances the cursor; the rejected remainder
    /// stays pending, so the step is resumable without loss or duplication.
    /// A write of zero bytes against a non-empty buffer means the sink is
    /// stuck and is reported as the fatal `WriteZero` error, distinct from
    /// every other failure.
    pub fn advance(&mut self, n: usize) -> (r: Result<(), TunnelError>)
        requires
            old(self).wf(),
            old(self).phase() is Draining,
            n <= old(self).pending().len(),
            old(self).written_bytes().len() + n <= u64::MAX,
        ensures
            final(self).wf(),
            final(self).source_done() == old(self).source_done(),
            n == 0 ==> r == Err::<(), TunnelError>(TunnelError::WriteZero) && *final(self) == *old(
                self,
            ),
            n > 0 ==> {
                &&& r is Ok
                &&& final(self).written_bytes() == old(self).written_bytes() + old(
                    self,
                ).pending().take(n as int)
                &&& final(self).pending() == old(self).pending().skip(n as int)
            },
    {
        if n == 0 {
            return Err(TunnelError::WriteZero);
        }
        proof {
            assert(self.buf@.skip(self.pos as int + n as int) =~= self.buf@.skip(
                self.pos as int,
            ).skip(n as int));
            assert(self.buf@.subrange(self.pos as int, self.pos as int + n as int) =~= self.buf@.skip(
                self.pos as int,
            ).take(n as int));
        }
        let ghost sent = self.buf@.subrange(self.pos as int, self.pos as int + n as int);
        self.written = Ghost(self.written@ + sent);
        self.pos = self.pos + n;
        self.amt = self.amt + n as u64;
        Ok(())
    }

    /// The running byte counter: exactly how many bytes the sink has
    /// accepted. After the final flush this is the copy's result.
    pub fn total_written(&self) -> (n: u64)
        requires
            self.wf(),
        ensures
            n == self.written_bytes().len(),
    {
        self.amt
    }
}

/// Runs one whole write-side session over an in-memory byte sink that
/// accepts at most `cap` bytes per write call.
///
/// Whatever the chunk boundaries and however small the sink's appetite, the
/// sink ends up with exactly the bytes the chunk sequence carries, in order,
/// with no loss and no duplication: partial writes are fully resumable.
pub fn relay_chunks(chunks: &Vec<Chunk>, cap: usize) -> (out: Vec<u8>)
    requires
        cap > 0,
        concat_of(payloads_of(chunks@)).len() <= u64::MAX,
    ensures
        out@ == concat_of(payloads_of(chunks@)),
{
    let ghost all = payloads_of(chunks@);
    let mut w = stream_writer_copy();
    let mut out: Vec<u8> = Vec::new();
    let mut i: usize = 0;
    proof {
        assert(all.take(0) =~= Seq::<Seq<u8>>::empty());
        assert(w.written_bytes() + w.pending() =~= concat_of(all.take(0)));
    }
    loop
        invariant
            cap > 0,
            all == payloads_of(chunks@),
            concat_of(all).len() <= u64::MAX,
            i <= chunks@.len(),
            w.wf(),
            w.written_bytes() + w.pending() == concat_of(all.take(i as int)),
            out@ == w.written_bytes(),
            w.source_done() ==> i == chunks@.len(),
        ensures
            out@ == concat_of(all),
        decreases
                chunks@.len() - i,
                (if w.source_done() {
                    0int
                } else {
                    1int
                }),
                w.pending().len(),
    {
        proof {
            lemma_concat_append(all.take(i as int), all.skip(i as int));
            assert(all.take(i as int) + all.skip(i as int) =~= all);
        }
        match w.current_phase() {
            WriterPhase::Filling => {
                if i < chunks.len() {
                    let c = chunks[i].clone();
                    proof {
                        lemma_concat_push(all.take(i as int), c@);
                        assert(all.take(i as int).push(c@) =~= all.take(i as int + 1));
                    }
                    match w.accept(StreamItem::Payload(c)) {
                        Ok(()) => {},
                        Err(_) => unreached(),
                    }
                    i = i + 1;
                } else {
                    match w.accept(StreamItem::Finished) {
                        Ok(()) => {},
                        Err(_) => unreached(),
                    }
                }
            },
            WriterPhase::Draining => {
                let p = w.pending_bytes();
                let n: usize = if p.len() < cap {
                    p.len()
                } else {
                    cap
                };
                let mut piece = slice_to_vec(slice_subrange(p.as_slice(), 0, n));
                out.append(&mut piece);
                proof {
                    assert(w.pending().take(n as int) + w.pending().skip(n as int) =~= w.pending());
                }
                match w.advance(n) {
                    Ok(()) => {},
                    Err(_) => unreached(),
                }
            },
            WriterPhase::Flushing => {
                proof {
                    assert(all.take(i as int) =~= all);
                    assert(out@ =~= concat_of(all));
                }
                break ;
            },
        }
    }
    out
}

/// Runs one whole session direction in memory: splits the source bytes into
/// chunks of at most `max` bytes, then drains them into a sink that accepts
/// at most `cap` bytes per write.
///
/// The sink receives exactly the source bytes, byte for byte and in order:
/// the chunking is invisible to the end-to-end byte stream.
pub fn relay_bytes(data: &Vec<u8>, max: usize, cap: usize) -> (out: Vec<u8>)
    requires
        max > 0,
        cap > 0,
    ensures
        out@ == data@,
{
    let n: usize = data.len();
    assert(data@.len() == n);
    let chunks = chunk_bytes(data, max);
    relay_chunks(&chunks, cap)
}

/// Produces chunks from a readable socket half, one read per step, until a
/// read returns no bytes.
pub struct StreamReaderCopy {
    /// The scratch buffer one read fills; its bytes are copied out into each
    /// produced chunk, so the buffer is reused across steps.
    pub buf: Vec<u8>,
}

/// A fresh reader with a zeroed scratch buffer of the fixed chunk capacity.
pub fn stream_reader_copy() -> (r: StreamReaderCopy)
    ensures
        r.buf@.len() == CHUNK_CAPACITY,
{
    let mut buf: Vec<u8> = Vec::new();
    let mut i: usize = 0;
    while i < CHUNK_CAPACITY
        invariant
            i <= CHUNK_CAPACITY,
            buf@.len() == i,
        decreases CHUNK_CAPACITY - i,
    {
        buf.push(0u8);
        i = i + 1;
    }
    StreamReaderCopy { buf }
}

impl StreamReaderCopy {
    /// Turns the outcome of one read into the next item of the produced
    /// sequence.
    ///
    /// A read of zero bytes is the one normal termination signal: it ends
    /// the sequence with no chunk produced for it and is never confused with
    /// an error. A read of `n > 0` bytes produces a chunk holding exactly
    /// the first `n` scratch bytes. A failed read surfaces as a stream-level
    /// error item carrying its cause.
    pub fn next_item(&self, outcome: ReadOutcome) -> (item: StreamItem)
        requires
            outcome matches ReadOutcome::Bytes(n) ==> n <= self.buf@.len(),
        ensures
            match outcome {
                ReadOutcome::Bytes(n) => if n == 0 {
                    item is Finished
                } else {
                    item matches StreamItem::Payload(c) && c@ == self.buf@.take(n as int)
                },
                ReadOutcome::ReadError(m) => item matches StreamItem::Failed(e) && e == m,
            },
            item is Finished <==> outcome == ReadOutcome::Bytes(0usize),
    {
        match outcome {
            ReadOutcome::Bytes(n) => {
                if n == 0 {
                    StreamItem::Finished
                } else {
                    let payload = slice_to_vec(slice_subrange(self.buf.as_slice(), 0, n));
                    proof {
                        assert(self.buf@.subrange(0, n as int) =~= self.buf@.take(n as int));
                    }
                    StreamItem::Payload(Chunk { data: payload })
                }
            },
            ReadOutcome::ReadError(m) => StreamItem::Failed(m),
        }
    }
}

} // verus!
