//! Reading a list of chunks as one stream of bytes.

use vstd::prelude::*;
use crate::compress::{chunk_views, stream_of};
use crate::seqs::{push_bytes, reversed};

verus! {

/// A stream of bytes made of chunks: what is buffered comes first, then the
/// chunks in their order.
pub struct IteratorReader {
    buffer: Vec<u8>,
    /// The chunks that were not buffered yet, the next one last.
    pending: Vec<Vec<u8>>,
}

/// The chunks one after the other, the first one first.
pub open spec fn joined(chunks: Seq<Seq<u8>>) -> Seq<u8>
    decreases chunks.len(),
{
    if chunks.len() == 0 {
        Seq::empty()
    } else {
        chunks.first() + joined(chunks.drop_first())
    }
}

/// The buffer after it was filled for a read of at most `max` bytes: chunks
/// are added until it holds `max` bytes or no chunk is left.
pub open spec fn filled(buffer: Seq<u8>, chunks: Seq<Seq<u8>>, max: nat) -> Seq<u8>
    decreases chunks.len(),
{
    if buffer.len() >= max || chunks.len() == 0 {
        buffer
    } else {
        filled(buffer + chunks.first(), chunks.drop_first(), max)
    }
}

/// The chunks that are left after the buffer was filled.
pub open spec fn left(buffer: Seq<u8>, chunks: Seq<Seq<u8>>, max: nat) -> Seq<Seq<u8>>
    decreases chunks.len(),
{
    if buffer.len() >= max || chunks.len() == 0 {
        chunks
    } else {
        left(buffer + chunks.first(), chunks.drop_first(), max)
    }
}

/// The number of bytes that a read of at most `max` bytes returns: where
/// bytes are buffered, as many of them as fit; otherwise the buffer is
/// filled first.
pub open spec fn read_len(buffer: Seq<u8>, chunks: Seq<Seq<u8>>, max: nat) -> nat {
    let available = if buffer.len() > 0 {
        buffer
    } else {
        filled(buffer, chunks, max)
    };
    if available.len() <= max {
        available.len()
    } else {
        max
    }
}

/// Filling the buffer moves bytes from the chunks to the buffer, and leaves
/// the stream as it is.
pub proof fn lemma_filled_keeps_stream(buffer: Seq<u8>, chunks: Seq<Seq<u8>>, max: nat)
    ensures
        filled(buffer, chunks, max) + joined(left(buffer, chunks, max)) == buffer + joined(chunks),
    decreases chunks.len(),
{
    if buffer.len() >= max || chunks.len() == 0 {
    } else {
        lemma_filled_keeps_stream(buffer + chunks.first(), chunks.drop_first(), max);
        assert((buffer + chunks.first()) + joined(chunks.drop_first()) =~= buffer + joined(chunks));
    }
}

impl IteratorReader {
    /// What is buffered.
    pub closed spec fn buffered(self) -> Seq<u8> {
        self.buffer@
    }

    /// The chunks that were not buffered yet, the next one first.
    pub closed spec fn chunks(self) -> Seq<Seq<u8>> {
        chunk_views(self.pending@).reverse()
    }

    /// The bytes that are still to be read.
    pub open spec fn remaining(self) -> Seq<u8> {
        self.buffered() + joined(self.chunks())
    }

    /// A reader of the chunks `data`, that first hands out what `buffer`
    /// holds.
    pub fn new(data: Vec<Vec<u8>>, buffer: Vec<u8>) -> (reader: IteratorReader)
        ensures
            reader.buffered() == buffer@,
            reader.chunks() == chunk_views(data@),
    {
        let pending = reversed(data);
        let reader = IteratorReader { buffer, pending };
        assert(reader.chunks() =~= chunk_views(data@));
        reader
    }

    /// Reads at most `max` bytes: the next bytes of the stream, as many as
    /// `read_len` says. Nothing is returned only where `max` is 0 or the
    /// stream has ended.
    pub fn read(&mut self, max: usize) -> (out: Vec<u8>)
        ensures
            out@.len() == read_len(old(self).buffered(), old(self).chunks(), max as nat),
            out@ == old(self).remaining().take(out@.len() as int),
            final(self).remaining() == old(self).remaining().skip(out@.len() as int),
            out@.len() <= max,
            out@.len() == 0 <==> (max == 0 || old(self).remaining().len() == 0),
    {
        let ghost start_buffer = self.buffer@;
        let ghost start_chunks = self.chunks();
        let was_empty = self.buffer.len() == 0;
        if was_empty {
            while self.buffer.len() < max && self.pending.len() > 0
                invariant
                    filled(self.buffer@, self.chunks(), max as nat) == filled(
                        start_buffer,
                        start_chunks,
                        max as nat,
                    ),
                    left(self.buffer@, self.chunks(), max as nat) == left(
                        start_buffer,
                        start_chunks,
                        max as nat,
                    ),
                decreases self.pending.len(),
            {
                let ghost before = self.chunks();
                let ghost n = self.pending@.len();
                let chunk = self.pending.pop().unwrap();
                proof {
                    assert(before.first() == chunk@);
                    assert(self.chunks() =~= before.drop_first());
                }
                push_bytes(&mut self.buffer, chunk.as_slice());
            }
        }
        proof {
            lemma_filled_keeps_stream(start_buffer, start_chunks, max as nat);
            if was_empty {
                assert(self.buffer@ == filled(start_buffer, start_chunks, max as nat));
                assert(self.chunks() == left(start_buffer, start_chunks, max as nat));
            }
            assert(self.buffer@ + joined(self.chunks()) == start_buffer + joined(start_chunks));
            if self.buffer@.len() == 0 && max > 0 {
                assert(self.chunks().len() == 0);
            }
        }
        let ghost whole = self.buffer@;
        let ghost rest = joined(self.chunks());
        let count = if self.buffer.len() <= max {
            self.buffer.len()
        } else {
            max
        };
        let tail = self.buffer.split_off(count);
        let mut out = tail;
        core::mem::swap(&mut out, &mut self.buffer);
        proof {
            assert(out@ =~= whole.take(count as int));
            assert(out@ =~= (whole + rest).take(count as int));
            assert(self.buffer@ + rest =~= (whole + rest).skip(count as int));
        }
        out
    }
}

/// A stream read to its end gives the chunks one after the other, whatever
/// the order of the calls: what `joined` says is what `stream_of` says.
pub proof fn lemma_joined_is_stream(chunks: Seq<Seq<u8>>)
    ensures
        joined(chunks) == stream_of(chunks),
    decreases chunks.len(),
{
    if chunks.len() == 0 {
    } else if chunks.len() == 1 {
        assert(chunks.drop_first() =~= Seq::<Seq<u8>>::empty());
        assert(chunks.drop_last() =~= Seq::<Seq<u8>>::empty());
        assert(joined(chunks.drop_first()) =~= Seq::<u8>::empty());
        assert(stream_of(chunks.drop_last()) =~= Seq::<u8>::empty());
        assert(chunks.first() == chunks.last());
        assert(joined(chunks) =~= stream_of(chunks));
    } else {
        let middle = chunks.drop_first().drop_last();
        lemma_joined_is_stream(chunks.drop_first());
        lemma_joined_is_stream(chunks.drop_last());
        lemma_joined_is_stream(middle);
        assert(chunks.drop_last().drop_first() =~= middle);
        assert(chunks.drop_first().last() == chunks.last());
        assert(chunks.drop_last().first() == chunks.first());
        assert(stream_of(chunks.drop_first()) == stream_of(middle) + chunks.last());
        assert(joined(chunks.drop_last()) == chunks.first() + joined(middle));
        assert(joined(chunks) == chunks.first() + (stream_of(middle) + chunks.last()));
        assert(stream_of(chunks) == (chunks.first() + joined(middle)) + chunks.last());
        assert(joined(chunks) =~= stream_of(chunks));
    }
}

} // verus!
