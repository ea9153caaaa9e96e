//! Cutting a buffer into consecutive chunks of one size.

use vstd::prelude::*;
use vstd::slice::slice_subrange;

verus! {

/// The chunks of `content`: `size` bytes at a time from the front, and what
/// is left at the end as a last, shorter chunk.
pub open spec fn chunks_of(content: Seq<u8>, size: nat) -> Seq<Seq<u8>>
    decreases content.len(),
{
    if size == 0 || content.len() == 0 {
        Seq::empty()
    } else if content.len() <= size {
        seq![content]
    } else {
        seq![content.take(size as int)] + chunks_of(content.skip(size as int), size)
    }
}

/// How many chunks of `size` bytes it takes to hold `len` bytes.
pub open spec fn chunk_count(len: nat, size: nat) -> nat {
    if len % size == 0 {
        len / size
    } else {
        len / size + 1
    }
}

/// Where the chunk after position `start` ends.
pub open spec fn chunk_end(len: nat, size: nat, start: nat) -> nat {
    if start + size <= len {
        start + size
    } else {
        len
    }
}

/// Cuts `content` into chunks of `chunk_size` bytes, in order; the last one
/// holds what is left.
pub fn split_chunks<'a>(content: &'a [u8], chunk_size: usize) -> (chunks: Vec<&'a [u8]>)
    requires
        chunk_size > 0,
    ensures
        chunks.deep_view() == chunks_of(content@, chunk_size as nat),
{
    let len: usize = content.len();
    let mut chunks: Vec<&'a [u8]> = Vec::new();
    let mut offset: usize = 0;
    assert(content@.skip(0) == content@);
    while offset < len
        invariant
            chunk_size > 0,
            len == content@.len(),
            offset <= len,
            chunks_of(content@, chunk_size as nat) == chunks.deep_view() + chunks_of(
                content@.skip(offset as int),
                chunk_size as nat,
            ),
        decreases len - offset,
    {
        let end: usize = if len - offset <= chunk_size {
            len
        } else {
            offset + chunk_size
        };
        let chunk: &'a [u8] = slice_subrange(content, offset, end);
        let ghost before = chunks.deep_view();
        let ghost rest = content@.skip(offset as int);
        chunks.push(chunk);
        proof {
            assert(chunks.deep_view() == before.push(chunk@)) by {
                assert forall|i: int| 0 <= i < chunks@.len() implies chunks.deep_view()[i]
                    == before.push(chunk@)[i] by {
                    assert(chunks@[i].deep_view() == before.push(chunk@)[i]);
                }
            }
            if end == len {
                assert(chunks_of(content@.skip(end as int), chunk_size as nat) == Seq::<
                    Seq<u8>,
                >::empty());
            } else {
                assert(chunk@ == rest.take(chunk_size as int));
                assert(content@.skip(end as int) == rest.skip(chunk_size as int));
            }
        }
        offset = end;
    }
    chunks
}

/// Chunks put back together, in order, are the buffer they were cut from.
pub proof fn lemma_chunks_rejoin(content: Seq<u8>, size: nat)
    requires
        size > 0,
    ensures
        chunks_of(content, size).flatten() == content,
    decreases content.len(),
{
    if 0 < content.len() <= size {
        seq![content].lemma_flatten_one_element();
    } else if content.len() > size {
        let head = content.take(size as int);
        let tail = content.skip(size as int);
        lemma_chunks_rejoin(tail, size);
        seq![head].lemma_flatten_one_element();
        vstd::seq_lib::lemma_flatten_concat(seq![head], chunks_of(tail, size));
    }
}

/// Every chunk starts inside the buffer.
pub proof fn lemma_chunk_starts_inside(len: nat, size: nat, index: int)
    requires
        size > 0,
        0 <= index < chunk_count(len, size),
    ensures
        0 <= index * size < len,
{
    let count = chunk_count(len, size) as int;
    assert(0 <= index * size < len) by (nonlinear_arith)
        requires
            size > 0,
            0 <= index < count,
            count == if len % size == 0 {
                len as int / size as int
            } else {
                len as int / size as int + 1
            },
    ;
}

/// There are as many chunks as it takes to hold the buffer; chunk `index`
/// starts `index` chunk sizes into the buffer and ends one chunk size
/// later, or where the buffer ends.
pub proof fn lemma_chunks_shape(content: Seq<u8>, size: nat)
    requires
        size > 0,
    ensures
        chunks_of(content, size).len() == chunk_count(content.len(), size),
        forall|index: int|
            0 <= index < chunks_of(content, size).len() ==> #[trigger] chunks_of(
                content,
                size,
            )[index] == content.subrange(
                index * size,
                chunk_end(content.len(), size, (index * size) as nat) as int,
            ),
    decreases content.len(),
{
    let len = content.len();
    if len == 0 {
        assert(0nat % size == 0 && 0nat / size == 0) by (nonlinear_arith)
            requires
                size > 0,
        ;
    } else if len <= size {
        assert(chunk_count(len, size) == 1) by (nonlinear_arith)
            requires
                0 < len <= size,
                chunk_count(len, size) == if len % size == 0 {
                    len / size
                } else {
                    len / size + 1
                },
        ;
        assert(0 * size == 0);
    } else {
        let tail = content.skip(size as int);
        lemma_chunks_shape(tail, size);
        assert(chunk_count(len, size) == chunk_count((len - size) as nat, size) + 1)
            by (nonlinear_arith)
            requires
                0 < size < len,
                chunk_count(len, size) == if len % size == 0 {
                    len / size
                } else {
                    len / size + 1
                },
                chunk_count((len - size) as nat, size) == if (len - size) % (size as int) == 0 {
                    (len - size) / (size as int)
                } else {
                    (len - size) / (size as int) + 1
                },
        ;
        assert forall|index: int| 0 <= index < chunks_of(content, size).len() implies chunks_of(
            content,
            size,
        )[index] == content.subrange(
            index * size,
            chunk_end(len, size, (index * size) as nat) as int,
        ) by {
            if index > 0 {
                let start = (index - 1) * size;
                assert(index * size == start + size) by (nonlinear_arith)
                    requires
                        start == (index - 1) * size,
                ;
                assert(start >= 0) by (nonlinear_arith)
                    requires
                        start == (index - 1) * size,
                        index >= 1,
                ;
                lemma_chunk_starts_inside(tail.len(), size, index - 1);
                let stop = chunk_end(tail.len(), size, start as nat) as int;
                assert(tail.subrange(start, stop) == content.subrange(
                    start + size,
                    stop + size,
                ));
            }
        }
    }
}

} // verus!
