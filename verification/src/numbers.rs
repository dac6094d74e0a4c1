//! The number streams with which a server can be tried out: a producer uploads the bytes 0 to 255
//! over and over, and a consumer checks that it reads the same.

use vstd::prelude::*;
use vstd::string::StringExecFns;

verus! {

/// The number of bytes in a chunk that the producer sends.
pub const CHUNK_SIZE: usize = 4_095;

/// The number of chunks that the producer sends.
pub const CHUNKS: usize = 500_000;

/// The URL of the server's streams, up to the name.
pub const STREAMS_URL: &'static str = "http://127.0.0.1:3000/";

/// `len` bytes of the number stream, from its byte `start` on: byte `n` is `n` modulo 256.
pub open spec fn numbers(start: nat, len: nat) -> Seq<u8> {
    Seq::new(len, |i: int| ((start + i) % 256) as u8)
}

/// The URL of the stream at `path`.
pub fn stream_url(path: &str) -> (url: String)
    ensures
        url@ == STREAMS_URL@ + path@,
{
    let mut url: String = STREAMS_URL.to_owned();
    url.append(path);
    url
}

/// The byte that follows `byte` in the number stream.
fn next_number(byte: u8) -> (next: u8)
    ensures
        next == (byte + 1) % 256,
{
    if byte == 255 {
        0
    } else {
        byte + 1
    }
}

/// The number stream in chunks, as the producer sends it.
pub struct NumberSource {
    /// The next byte.
    next: u8,
    /// The number of chunks that were given out.
    given: usize,
}

impl NumberSource {
    /// The number of chunks that were given out.
    pub closed spec fn chunks_given(&self) -> nat {
        self.given as nat
    }

    /// The source stands behind the chunks that it gave out.
    pub closed spec fn wf(&self) -> bool {
        &&& self.given <= CHUNKS
        &&& self.next == (self.given * CHUNK_SIZE) % 256
    }

    /// A source at the beginning of the number stream.
    pub fn new() -> (source: Self)
        ensures
            source.wf(),
            source.chunks_given() == 0,
    {
        NumberSource { next: 0, given: 0 }
    }

    /// The next chunk, or nothing once all were given out.
    pub fn next_chunk(&mut self) -> (chunk: Option<Vec<u8>>)
        requires
            old(self).wf(),
        ensures
            final(self).wf(),
            match chunk {
                Some(bytes) => {
                    &&& old(self).chunks_given() < CHUNKS
                    &&& final(self).chunks_given() == old(self).chunks_given() + 1
                    &&& bytes@ == numbers(
                        old(self).chunks_given() * CHUNK_SIZE as nat,
                        CHUNK_SIZE as nat,
                    )
                },
                None => {
                    &&& old(self).chunks_given() == CHUNKS
                    &&& *final(self) == *old(self)
                },
            },
    {
        if self.given == CHUNKS {
            return None;
        }
        let ghost start = self.chunks_given() * CHUNK_SIZE as nat;
        let mut chunk: Vec<u8> = Vec::with_capacity(CHUNK_SIZE);
        let mut next: u8 = self.next;
        while chunk.len() < CHUNK_SIZE
            invariant
                chunk.len() <= CHUNK_SIZE,
                chunk@ == numbers(start, chunk@.len()),
                next == (start + chunk.len()) % 256,
            decreases CHUNK_SIZE - chunk.len(),
        {
            chunk.push(next);
            next = next_number(next);
        }
        self.next = next;
        self.given = self.given + 1;
        Some(chunk)
    }
}

/// A byte that is not the one the number stream has at its place.
#[derive(Clone, Copy, Debug, PartialEq, Eq, Structural)]
pub struct Mismatch {
    /// The byte that was read.
    pub found: u8,
    /// The byte of the number stream.
    pub expected: u8,
}

/// The consumer's check that what it reads is the number stream.
pub struct NumberCheck {
    /// The byte that comes next.
    next: u8,
    /// The number of bytes that were read.
    read: Ghost<nat>,
}

impl NumberCheck {
    /// The number of bytes that were read and found right.
    pub closed spec fn bytes_read(&self) -> nat {
        self.read@
    }

    /// The check stands behind the bytes that were read.
    pub closed spec fn wf(&self) -> bool {
        self.next == self.read@ % 256
    }

    /// A check at the beginning of the number stream.
    pub fn new() -> (check: Self)
        ensures
            check.wf(),
            check.bytes_read() == 0,
    {
        NumberCheck { next: 0, read: Ghost(0) }
    }

    /// Checks that `chunk` goes on with the number stream; if not, tells the first byte that is
    /// wrong.
    pub fn check(&mut self, chunk: &[u8]) -> (checked: Result<(), Mismatch>)
        requires
            old(self).wf(),
        ensures
            final(self).wf(),
            match checked {
                Ok(()) => {
                    &&& chunk@ == numbers(old(self).bytes_read(), chunk@.len())
                    &&& final(self).bytes_read() == old(self).bytes_read() + chunk@.len()
                },
                Err(mismatch) => {
                    let i = final(self).bytes_read() - old(self).bytes_read();
                    &&& 0 <= i < chunk@.len()
                    &&& chunk@.take(i) == numbers(old(self).bytes_read(), i as nat)
                    &&& mismatch.found == chunk@[i]
                    &&& mismatch.expected == final(self).bytes_read() % 256
                    &&& mismatch.found != mismatch.expected
                },
            },
    {
        let mut i: usize = 0;
        while i < chunk.len()
            invariant
                i <= chunk@.len(),
                self.wf(),
                self.bytes_read() == old(self).bytes_read() + i,
                chunk@.take(i as int) == numbers(old(self).bytes_read(), i as nat),
            decreases chunk@.len() - i,
        {
            let found: u8 = chunk[i];
            if found != self.next {
                return Err(Mismatch { found, expected: self.next });
            }
            self.next = next_number(found);
            proof {
                self.read@ = self.read@ + 1;
                assert(chunk@.take(i + 1) == chunk@.take(i as int).push(found));
            }
            i = i + 1;
        }
        assert(chunk@.take(chunk@.len() as int) == chunk@);
        Ok(())
    }
}

/// The number stream can be split anywhere: a part of a part is again a part, and two parts that
/// follow each other make one.
pub proof fn parts_of_numbers(start: nat, len: nat, from: nat, to: nat)
    requires
        from <= to <= len,
    ensures
        numbers(start, len).subrange(from as int, to as int) == numbers(
            start + from,
            (to - from) as nat,
        ),
        numbers(start, from) + numbers(start + from, (len - from) as nat) == numbers(start, len),
{
    assert(numbers(start, len).subrange(from as int, to as int) == numbers(
        start + from,
        (to - from) as nat,
    ));
    assert(numbers(start, from) + numbers(start + from, (len - from) as nat) == numbers(
        start,
        len,
    ));
}

/// The chunks that a source gives out are the number stream, end to end.
pub proof fn chunks_are_the_numbers(chunks: Seq<Seq<u8>>)
    requires
        forall|k: int|
            0 <= k < chunks.len() ==> #[trigger] chunks[k] == numbers(
                k as nat * CHUNK_SIZE as nat,
                CHUNK_SIZE as nat,
            ),
    ensures
        chunks.flatten() == numbers(0, chunks.len() * CHUNK_SIZE as nat),
    decreases chunks.len(),
{
    if chunks.len() == 0 {
        assert(chunks.flatten() == numbers(0, 0));
    } else {
        let fewer = chunks.drop_last();
        chunks_are_the_numbers(fewer);
        assert(chunks == fewer.push(chunks.last()));
        fewer.lemma_flatten_push(chunks.last());
        let n = fewer.len() * CHUNK_SIZE as nat;
        parts_of_numbers(0, n + CHUNK_SIZE as nat, n, n);
    }
}

/// The consumer accepts what the producer sends however it is cut up on the way: if the pieces
/// are the beginning of the number stream, end to end, each is what the check asks for next.
pub proof fn any_cut_is_accepted(pieces: Seq<Seq<u8>>, len: nat, k: int)
    requires
        pieces.flatten() == numbers(0, len),
        0 <= k < pieces.len(),
    ensures
        pieces[k] == numbers(pieces.take(k).flatten().len(), pieces[k].len()),
{
    let front = pieces.take(k);
    let back = pieces.skip(k + 1);
    assert(pieces == front.push(pieces[k]) + back);
    vstd::seq_lib::lemma_flatten_concat(front.push(pieces[k]), back);
    front.lemma_flatten_push(pieces[k]);
    let from = front.flatten().len();
    let to = from + pieces[k].len();
    assert(pieces.flatten().subrange(from as int, to as int) == pieces[k]);
    parts_of_numbers(0, len, from, to);
}

} // verus!
