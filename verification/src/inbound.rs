//! Cutting what arrives from the server into chunks for the session.
use bytes::{Bytes, BytesMut};
use vstd::prelude::*;

verus! {

/// A buffer that is read into.
#[verifier::external_type_specification]
#[verifier::external_body]
pub struct ExBytesMut(BytesMut);

/// A chunk of bytes that is passed on.
#[verifier::external_type_specification]
#[verifier::external_body]
pub struct ExBytes(Bytes);

/// The bytes in a buffer.
pub uninterp spec fn buffered(buffer: BytesMut) -> Seq<u8>;

/// The bytes in a chunk.
pub uninterp spec fn chunk_bytes(chunk: Bytes) -> Seq<u8>;

/// Calls `BytesMut::split_off`. The contract claims that the buffer keeps its first `at` bytes and
/// that the rest is handed back. Further out than the buffer reaches, the call may panic.
#[verifier::external_body]
pub(crate) fn split_off(buffer: &mut BytesMut, at: usize) -> (rest: BytesMut)
    requires
        at <= buffered(*old(buffer)).len(),
    ensures
        buffered(*final(buffer)) == buffered(*old(buffer)).take(at as int),
        buffered(rest) == buffered(*old(buffer)).skip(at as int),
{
    buffer.split_off(at)
}

/// Calls `BytesMut::len`. The contract claims that it counts the bytes in the buffer.
#[verifier::external_body]
pub(crate) fn buffered_len(buffer: &BytesMut) -> (len: usize)
    ensures
        len == buffered(*buffer).len(),
{
    buffer.len()
}

/// Calls `BytesMut::freeze`. The contract claims that the chunk holds the bytes of the buffer.
#[verifier::external_body]
pub(crate) fn freeze(buffer: BytesMut) -> (chunk: Bytes)
    ensures
        chunk_bytes(chunk) == buffered(buffer),
{
    buffer.freeze()
}

/// What is taken out of a buffer after a read of so many bytes: the chunk to pass on, and what stays
/// for the next read. A read of nothing is the end of the connection, and there is no chunk. If the
/// buffer holds fewer bytes than were read, the chunk is all of it.
pub open spec fn chunk_of(held: Seq<u8>, bytes_read: nat) -> Option<(Seq<u8>, Seq<u8>)> {
    if bytes_read == 0 {
        None
    } else if bytes_read <= held.len() {
        Some((held.take(bytes_read as int), held.skip(bytes_read as int)))
    } else {
        Some((held, Seq::empty()))
    }
}

/// Takes what was just read out of the buffer: the chunk to pass on, and the buffer to read into
/// next. No byte is lost: chunk and rest together are what the buffer held.
pub fn take_chunk(buffer: BytesMut, bytes_read: usize) -> (taken: Option<(Bytes, BytesMut)>)
    ensures
        match chunk_of(buffered(buffer), bytes_read as nat) {
            None => taken is None,
            Some((chunk, rest)) => taken matches Some((passed, left)) && chunk_bytes(passed)
                == chunk && buffered(left) == rest,
        },
        taken matches Some((chunk, rest)) ==> chunk_bytes(chunk) + buffered(rest) == buffered(
            buffer,
        ),
{
    if bytes_read == 0 {
        return None;
    }
    let len = buffered_len(&buffer);
    let at: usize = if bytes_read <= len {
        bytes_read
    } else {
        len
    };
    let mut chunk = buffer;
    let rest = split_off(&mut chunk, at);
    assert(buffered(chunk) + buffered(rest) =~= buffered(buffer));
    assert(at == len ==> buffered(chunk) =~= buffered(buffer) && buffered(rest) =~= Seq::empty());
    Some((freeze(chunk), rest))
}

/// Decides what follows a read: if it failed, reading ends with its error; otherwise what was read is
/// taken out of the buffer, or reading ends without an error.
pub fn after_read<E>(buffer: BytesMut, outcome: Result<usize, E>) -> (next: Result<
    Option<(Bytes, BytesMut)>,
    E,
>)
    ensures
        match outcome {
            Err(error) => next == Err::<Option<(Bytes, BytesMut)>, E>(error),
            Ok(bytes_read) => match chunk_of(buffered(buffer), bytes_read as nat) {
                None => next == Ok::<Option<(Bytes, BytesMut)>, E>(None),
                Some((chunk, rest)) => next matches Ok(Some((passed, left))) && chunk_bytes(passed)
                    == chunk && buffered(left) == rest,
            },
        },
{
    match outcome {
        Ok(bytes_read) => Ok(take_chunk(buffer, bytes_read)),
        Err(error) => Err(error),
    }
}

/// What a number of reads gave, one after the other.
pub open spec fn all_read(reads: Seq<Seq<u8>>) -> Seq<u8>
    decreases reads.len(),
{
    if reads.len() == 0 {
        Seq::empty()
    } else {
        reads[0] + all_read(reads.skip(1))
    }
}

/// How reading goes on a connection.
pub struct Reading {
    /// The chunks that are passed on, in order.
    pub chunks: Seq<Seq<u8>>,
    /// Whether reading ends with an error.
    pub failed: bool,
}

/// How reading goes on if the buffer holds `held` and these reads follow, each given by the bytes
/// that it puts behind those in the buffer, or `None` if it fails.
pub open spec fn reading(held: Seq<u8>, reads: Seq<Option<Seq<u8>>>) -> Reading
    decreases reads.len(),
{
    if reads.len() == 0 {
        Reading { chunks: Seq::empty(), failed: false }
    } else {
        match reads[0] {
            None => Reading { chunks: Seq::empty(), failed: true },
            Some(read) => match chunk_of(held + read, read.len()) {
                None => Reading { chunks: Seq::empty(), failed: false },
                Some((chunk, rest)) => {
                    let later = reading(rest, reads.skip(1));
                    Reading { chunks: seq![chunk] + later.chunks, failed: later.failed }
                },
            },
        }
    }
}

/// The bytes of the reads up to the one at which reading ends: the first that fails or gives nothing.
pub open spec fn reads_until_end(reads: Seq<Option<Seq<u8>>>) -> Seq<Seq<u8>>
    decreases reads.len(),
{
    if reads.len() == 0 {
        Seq::empty()
    } else {
        match reads[0] {
            None => Seq::empty(),
            Some(read) => if read.len() == 0 {
                Seq::empty()
            } else {
                seq![read] + reads_until_end(reads.skip(1))
            },
        }
    }
}

/// Beginning with an empty buffer, the chunks are the reads, in order, up to the one at which reading
/// ends: none is empty, and one after the other they are what the server sent. Reading ends with an
/// error exactly if a read failed before one gave nothing.
pub proof fn law_chunks_are_the_reads(reads: Seq<Option<Seq<u8>>>)
    ensures
        reading(Seq::empty(), reads).chunks == reads_until_end(reads),
        all_read(reading(Seq::empty(), reads).chunks) == all_read(reads_until_end(reads)),
        forall|i: int|
            0 <= i < reading(Seq::empty(), reads).chunks.len() ==> (#[trigger] reading(
                Seq::empty(),
                reads,
            ).chunks[i]).len() > 0,
        reads_until_end(reads).len() <= reads.len(),
        forall|i: int|
            0 <= i < reads_until_end(reads).len() ==> reads[i] == Some(
                #[trigger] reads_until_end(reads)[i],
            ),
        reads_until_end(reads).len() < reads.len() ==> (match reads[reads_until_end(
            reads,
        ).len() as int] {
            None => true,
            Some(read) => read.len() == 0,
        }),
        reading(Seq::empty(), reads).failed <==> reads_until_end(reads).len() < reads.len()
            && reads[reads_until_end(reads).len() as int] is None,
    decreases reads.len(),
{
    if reads.len() > 0 {
        match reads[0] {
            Some(read) => {
                if read.len() > 0 {
                    let held = Seq::<u8>::empty() + read;
                    assert(held =~= read);
                    assert(held.take(read.len() as int) =~= read);
                    assert(held.skip(read.len() as int) =~= Seq::empty());
                    let rest = reads.skip(1);
                    law_chunks_are_the_reads(rest);
                    let until = reads_until_end(reads);
                    let later = reads_until_end(rest);
                    assert(until =~= seq![read] + later);
                    assert forall|i: int| 0 <= i < until.len() implies reads[i] == Some(
                        #[trigger] until[i],
                    ) && until[i].len() > 0 by {
                        if i > 0 {
                            assert(until[i] == later[i - 1]);
                            assert(reads[i] == rest[i - 1]);
                        }
                    }
                    assert(later.len() < rest.len() ==> rest[later.len() as int]
                        == reads[until.len() as int]);
                }
            },
            None => {},
        }
    }
}

/// However early those who take the chunks stop, what they have got is the front of what the server
/// sent.
pub proof fn law_chunks_are_a_front(chunks: Seq<Seq<u8>>, count: int)
    requires
        0 <= count <= chunks.len(),
    ensures
        all_read(chunks.take(count)).len() <= all_read(chunks).len(),
        all_read(chunks.take(count)) == all_read(chunks).take(
            all_read(chunks.take(count)).len() as int,
        ),
    decreases chunks.len(),
{
    let front = chunks.take(count);
    if count > 0 {
        law_chunks_are_a_front(chunks.skip(1), count - 1);
        assert(front.skip(1) =~= chunks.skip(1).take(count - 1));
        assert(all_read(front) =~= all_read(chunks).take(all_read(front).len() as int));
    } else {
        assert(all_read(front) =~= all_read(chunks).take(0));
    }
}

/// A read of nothing gives no chunk. After any other read, chunk and rest are the buffer cut in two,
/// and the chunk is as long as what was read, or all of the buffer if that is shorter.
pub proof fn law_chunk_is_the_front_of_the_buffer(held: Seq<u8>, bytes_read: nat)
    ensures
        chunk_of(held, bytes_read) is None <==> bytes_read == 0,
        chunk_of(held, bytes_read) matches Some((chunk, rest)) ==> {
            &&& chunk + rest == held
            &&& bytes_read <= held.len() ==> chunk.len() == bytes_read
            &&& bytes_read > held.len() ==> chunk.len() == held.len()
        },
{
    if 0 < bytes_read <= held.len() {
        assert(held.take(bytes_read as int) + held.skip(bytes_read as int) =~= held);
    } else if bytes_read > 0 {
        assert(held + Seq::<u8>::empty() =~= held);
    }
}

/// What a number of reads gave is what the first gave, and then what the others gave.
pub proof fn law_all_read_is_every_read(read: Seq<u8>, reads: Seq<Seq<u8>>)
    ensures
        all_read(Seq::empty()) == Seq::<u8>::empty(),
        all_read(seq![read] + reads) == read + all_read(reads),
{
    assert((seq![read] + reads).skip(1) =~= reads);
}

} // verus!
