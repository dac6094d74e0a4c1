//! What the producer sends and what the consumer accepts.

use vstd::prelude::*;

use crate::numbers::{numbers, stream_url, Mismatch, NumberCheck, NumberSource};

verus! {

/// The streams are at the server's address, under their names.
pub proof fn urls_end_with_the_path(path: &str, url: String)
    requires
        call_ensures(stream_url, (path,), url),
    ensures
        url@ == "http://127.0.0.1:3000/"@ + path@,
        call_requires(stream_url, (path,)),
{
}

/// What is known of a source after `k` calls.
proof fn lemma_source(sources: Seq<NumberSource>, given: Seq<Option<Vec<u8>>>, k: int)
    requires
        0 <= k < given.len(),
        sources.len() == given.len() + 1,
        call_ensures(NumberSource::new, (), sources[0]),
        forall|i: int|
            0 <= i < given.len() ==> gives(sources[i], sources[i + 1], #[trigger] given[i]),
    ensures
        sources[k].wf(),
        k <= 500_000 ==> sources[k].chunks_given() == k,
        k > 500_000 ==> sources[k].chunks_given() == 500_000,
    decreases k,
{
    if k > 0 {
        lemma_source(sources, given, k - 1);
        assert(gives(sources[k - 1], sources[k - 1 + 1], given[k - 1]));
    }
}

/// What is known of one call of `next_chunk`.
spec fn gives(before: NumberSource, after: NumberSource, chunk: Option<Vec<u8>>) -> bool {
    &&& after.wf()
    &&& match chunk {
        Some(bytes) => {
            &&& before.chunks_given() < 500_000
            &&& after.chunks_given() == before.chunks_given() + 1
            &&& bytes@ == numbers(before.chunks_given() * 4_095, 4_095)
        },
        None => before.chunks_given() == 500_000 && after == before,
    }
}

/// A call of `next_chunk` gives the next chunk.
proof fn lemma_gives(before: NumberSource, after: NumberSource, chunk: Option<Vec<u8>>)
    requires
        exists|source: &mut NumberSource|
            *source == before && *final(source) == after && #[trigger] call_ensures(
                NumberSource::next_chunk,
                (source,),
                chunk,
            ),
    ensures
        gives(before, after, chunk),
{
}

/// A source gives 500000 chunks of 4095 bytes and then nothing. Byte `j` of chunk `k` is the
/// number of bytes before it, modulo 256.
pub proof fn source_gives_the_numbers(
    sources: Seq<NumberSource>,
    given: Seq<Option<Vec<u8>>>,
    k: int,
)
    requires
        0 <= k < given.len(),
        sources.len() == given.len() + 1,
        call_ensures(NumberSource::new, (), sources[0]),
        forall|i: int|
            0 <= i < given.len() ==> exists|source: &mut NumberSource|
                *source == sources[i] && *final(source) == sources[i + 1]
                    && #[trigger] call_ensures(
                    NumberSource::next_chunk,
                    (source,),
                    #[trigger] given[i],
                ),
    ensures
        given[k] is Some <==> k < 500_000,
        given[k] matches Some(chunk) ==> {
            &&& chunk@.len() == 4_095
            &&& forall|j: int| 0 <= j < 4_095 ==> #[trigger] chunk@[j] == (k * 4_095 + j) % 256
        },
        forall|source: &mut NumberSource|
            *source == sources[k] ==> #[trigger] call_requires(NumberSource::next_chunk, (source,)),
{
    assert forall|i: int| 0 <= i < given.len() implies gives(
        sources[i],
        sources[i + 1],
        #[trigger] given[i],
    ) by {
        lemma_gives(sources[i], sources[i + 1], given[i]);
    }
    lemma_source(sources, given, k);
    assert(gives(sources[k], sources[k + 1], given[k]));
    if let Some(chunk) = given[k] {
        assert forall|j: int| 0 <= j < 4_095 implies #[trigger] chunk@[j] == (k * 4_095 + j)
            % 256 by {
            assert(chunk@[j] == ((k as nat * 4_095 + j) % 256) as u8);
        }
    }
}

/// The number of bytes in some chunks.
pub open spec fn length_of(chunks: Seq<&[u8]>) -> nat
    decreases chunks.len(),
{
    if chunks.len() == 0 {
        0
    } else {
        length_of(chunks.drop_last()) + chunks.last()@.len()
    }
}

/// What is known of one call of `check` that finds all bytes right.
spec fn accepts(before: NumberCheck, chunk: Seq<u8>, after: NumberCheck) -> bool {
    &&& after.wf()
    &&& chunk == numbers(before.bytes_read(), chunk.len())
    &&& after.bytes_read() == before.bytes_read() + chunk.len()
}

/// A call of `check` that finds all bytes right accepts the chunk.
proof fn lemma_accepts(before: NumberCheck, chunk: &[u8], after: NumberCheck)
    requires
        exists|check: &mut NumberCheck|
            *check == before && *final(check) == after && #[trigger] call_ensures(
                NumberCheck::check,
                (check, chunk),
                Ok::<(), Mismatch>(()),
            ),
    ensures
        accepts(before, chunk@, after),
{
}

/// What is known of a check that has accepted `k` chunks.
proof fn lemma_check(checks: Seq<NumberCheck>, chunks: Seq<&[u8]>, k: int)
    requires
        0 <= k <= chunks.len(),
        checks.len() == chunks.len() + 1,
        call_ensures(NumberCheck::new, (), checks[0]),
        forall|i: int|
            0 <= i < chunks.len() ==> accepts(checks[i], (#[trigger] chunks[i])@, checks[i + 1]),
    ensures
        checks[k].wf(),
        checks[k].bytes_read() == length_of(chunks.take(k)),
    decreases k,
{
    if k > 0 {
        lemma_check(checks, chunks, k - 1);
        assert(accepts(checks[k - 1], chunks[k - 1]@, checks[k - 1 + 1]));
        assert(chunks.take(k).drop_last() == chunks.take(k - 1));
    }
}

/// After any chunks that were found right, the next chunk is found right exactly if each of its
/// bytes is the number of bytes before it, modulo 256. Otherwise the first byte that is not is
/// told, with what it should be.
pub proof fn check_accepts_the_numbers(
    checks: Seq<NumberCheck>,
    chunks: Seq<&[u8]>,
    next: &[u8],
    after: NumberCheck,
    checked: Result<(), Mismatch>,
)
    requires
        checks.len() == chunks.len() + 1,
        call_ensures(NumberCheck::new, (), checks[0]),
        forall|i: int|
            0 <= i < chunks.len() ==> exists|check: &mut NumberCheck|
                *check == checks[i] && *final(check) == checks[i + 1] && #[trigger] call_ensures(
                    NumberCheck::check,
                    (check, #[trigger] chunks[i]),
                    Ok::<(), Mismatch>(()),
                ),
        exists|check: &mut NumberCheck|
            *check == checks[chunks.len() as int] && *final(check) == after
                && #[trigger] call_ensures(NumberCheck::check, (check, next), checked),
    ensures
        checked is Ok <==> forall|j: int|
            0 <= j < next@.len() ==> #[trigger] next@[j] == (length_of(chunks) + j) % 256,
        checked matches Err(mismatch) ==> exists|j: int|
            {
                &&& 0 <= j < next@.len()
                &&& mismatch.found == #[trigger] next@[j]
                &&& mismatch.expected == (length_of(chunks) + j) % 256
                &&& mismatch.found != mismatch.expected
                &&& forall|m: int| 0 <= m < j ==> next@[m] == (length_of(chunks) + m) % 256
            },
        forall|check: &mut NumberCheck, chunk: &[u8]|
            *check == checks[chunks.len() as int] ==> #[trigger] call_requires(
                NumberCheck::check,
                (check, chunk),
            ),
{
    assert forall|i: int| 0 <= i < chunks.len() implies accepts(
        checks[i],
        (#[trigger] chunks[i])@,
        checks[i + 1],
    ) by {
        lemma_accepts(checks[i], chunks[i], checks[i + 1]);
    }
    let n = chunks.len() as int;
    lemma_check(checks, chunks, n);
    assert(chunks.take(n) == chunks);
    let start = length_of(chunks);
    match checked {
        Ok(()) => {
            assert forall|j: int| 0 <= j < next@.len() implies #[trigger] next@[j] == (start + j)
                % 256 by {
                assert(numbers(start, next@.len())[j] == ((start + j) % 256) as u8);
            }
        },
        Err(mismatch) => {
            let j = after.bytes_read() - start;
            assert forall|m: int| 0 <= m < j implies next@[m] == (start + m) % 256 by {
                assert(next@.take(j)[m] == numbers(start, j as nat)[m]);
            }
            assert(next@[j] != (start + j) % 256);
        },
    }
}

} // verus!
