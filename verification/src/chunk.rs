//! The message unit of the tunnel stream and the byte-stream model behind it.
//!
//! A chunk carries one contiguous slice of the original byte stream; the
//! stream itself is the concatenation of the chunk payloads in arrival order.
//! Chunk boundaries carry no meaning of their own.

use vstd::prelude::*;
use vstd::slice::slice_subrange;
use vstd::slice::slice_to_vec;

verus! {

/// The size of the scratch buffer a reader fills on each step, and therefore
/// the largest payload one produced chunk can carry.
pub const CHUNK_CAPACITY: usize = 2048;

/// One message unit of the tunnel stream: an opaque byte payload.
pub struct Chunk {
    pub data: Vec<u8>,
}

impl View for Chunk {
    type V = Seq<u8>;

    open spec fn view(&self) -> Seq<u8> {
        self.data@
    }
}

impl Clone for Chunk {
    fn clone(&self) -> (c: Self)
        ensures
            c@ == self@,
    {
        Chunk { data: slice_to_vec(self.data.as_slice()) }
    }
}

/// The payloads of a chunk sequence, in order.
pub open spec fn payloads_of(chunks: Seq<Chunk>) -> Seq<Seq<u8>> {
    chunks.map_values(|c: Chunk| c@)
}

/// The byte stream a chunk sequence carries: its payloads concatenated in
/// order.
pub open spec fn concat_of(payloads: Seq<Seq<u8>>) -> Seq<u8>
    decreases payloads.len(),
{
    if payloads.len() == 0 {
        Seq::empty()
    } else {
        concat_of(payloads.drop_last()) + payloads.last()
    }
}

/// Appending one payload extends the carried byte stream by exactly that
/// payload.
pub proof fn lemma_concat_push(payloads: Seq<Seq<u8>>, p: Seq<u8>)
    ensures
        concat_of(payloads.push(p)) == concat_of(payloads) + p,
{
    assert(payloads.push(p).drop_last() =~= payloads);
    assert(payloads.push(p).last() == p);
}

/// Concatenation distributes over appending chunk sequences.
pub proof fn lemma_concat_append(a: Seq<Seq<u8>>, b: Seq<Seq<u8>>)
    ensures
        concat_of(a + b) == concat_of(a) + concat_of(b),
    decreases b.len(),
{
    if b.len() == 0 {
        assert(a + b =~= a);
        assert(concat_of(a) + concat_of(b) =~= concat_of(a));
    } else {
        lemma_concat_append(a, b.drop_last());
        assert((a + b).drop_last() =~= a + b.drop_last());
        assert((a + b).last() == b.last());
        lemma_concat_push(b.drop_last(), b.last());
        assert(b.drop_last().push(b.last()) =~= b);
        assert(concat_of(a) + concat_of(b.drop_last()) + b.last() =~= concat_of(a) + concat_of(
            b,
        ));
    }
}

/// Splits a byte vector into chunks of at most `max` bytes each. Every chunk
/// is non-empty, and the chunks carry exactly the input bytes in order: the
/// chunking is invisible to the reassembled byte stream.
pub fn chunk_bytes(data: &Vec<u8>, max: usize) -> (chunks: Vec<Chunk>)
    requires
        max > 0,
    ensures
        concat_of(payloads_of(chunks@)) == data@,
        forall|i: int| 0 <= i < chunks@.len() ==> 0 < (#[trigger] chunks@[i])@.len() <= max,
{
    let mut chunks: Vec<Chunk> = Vec::new();
    let mut pos: usize = 0;
    proof {
        assert(payloads_of(chunks@) =~= Seq::<Seq<u8>>::empty());
        assert(concat_of(payloads_of(chunks@)) =~= data@.take(0));
    }
    while pos < data.len()
        invariant
            max > 0,
            pos <= data@.len(),
            concat_of(payloads_of(chunks@)) == data@.take(pos as int),
            forall|i: int| 0 <= i < chunks@.len() ==> 0 < (#[trigger] chunks@[i])@.len() <= max,
        decreases data@.len() - pos,
    {
        let end: usize = if data.len() - pos > max {
            pos + max
        } else {
            data.len()
        };
        let payload = slice_to_vec(slice_subrange(data.as_slice(), pos, end));
        let c = Chunk { data: payload };
        proof {
            lemma_concat_push(payloads_of(chunks@), c@);
            assert(payloads_of(chunks@.push(c)) =~= payloads_of(chunks@).push(c@));
            assert(data@.take(pos as int) + data@.subrange(pos as int, end as int) =~= data@.take(
                end as int,
            ));
        }
        chunks.push(c);
        pos = end;
    }
    proof {
        assert(data@.take(pos as int) =~= data@);
    }
    chunks
}

} // verus!
