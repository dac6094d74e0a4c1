//! How the chunks of an upload are gathered into blocks.

use vstd::prelude::*;

verus! {

/// Chunks gathered into blocks: the blocks that are full, and the bytes that wait for more.
pub struct Gathered {
    /// The full blocks.
    pub full: Seq<Seq<u8>>,
    /// The bytes behind the last full block.
    pub rest: Seq<u8>,
}

/// The chunks gathered into blocks: chunk after chunk is put to the rest, which becomes a full
/// block as soon as it has `preferred` bytes. A chunk is never split.
pub open spec fn gather(chunks: Seq<Seq<u8>>, preferred: nat) -> Gathered
    decreases chunks.len(),
{
    if chunks.len() == 0 {
        Gathered { full: Seq::empty(), rest: Seq::empty() }
    } else {
        let earlier = gather(chunks.drop_last(), preferred);
        let rest = earlier.rest + chunks.last();
        if rest.len() >= preferred {
            Gathered { full: earlier.full.push(rest), rest: Seq::empty() }
        } else {
            Gathered { full: earlier.full, rest }
        }
    }
}

/// The blocks of a whole upload: the full ones, and the rest as one more if there is any.
pub open spec fn blocks_of(chunks: Seq<Seq<u8>>, preferred: nat) -> Seq<Seq<u8>> {
    let gathered = gather(chunks, preferred);
    gathered.full + rest_block(gathered.rest)
}

/// The block that the rest makes when no more chunks come: none if it is empty.
pub open spec fn rest_block(rest: Seq<u8>) -> Seq<Seq<u8>> {
    if rest.len() > 0 {
        seq![rest]
    } else {
        Seq::empty()
    }
}

/// No byte is lost, added or moved: the full blocks and the rest are the chunks, end to end.
pub proof fn gathering_keeps_bytes(chunks: Seq<Seq<u8>>, preferred: nat)
    ensures
        gather(chunks, preferred).full.flatten() + gather(chunks, preferred).rest
            == chunks.flatten(),
    decreases chunks.len(),
{
    if chunks.len() > 0 {
        let earlier = gather(chunks.drop_last(), preferred);
        let last = chunks.last();
        gathering_keeps_bytes(chunks.drop_last(), preferred);
        assert(chunks == chunks.drop_last().push(last));
        chunks.drop_last().lemma_flatten_push(last);
        earlier.full.lemma_flatten_push(earlier.rest + last);
        assert(earlier.full.flatten() + (earlier.rest + last) == (earlier.full.flatten()
            + earlier.rest) + last);
        assert(earlier.full.flatten() + (earlier.rest + last) + Seq::<u8>::empty()
            == earlier.full.flatten() + (earlier.rest + last));
    }
}

/// The blocks of a whole upload are its chunks, end to end.
pub proof fn blocks_are_the_upload(chunks: Seq<Seq<u8>>, preferred: nat)
    ensures
        blocks_of(chunks, preferred).flatten() == chunks.flatten(),
{
    let gathered = gather(chunks, preferred);
    gathering_keeps_bytes(chunks, preferred);
    if gathered.rest.len() > 0 {
        assert(gathered.full + seq![gathered.rest] == gathered.full.push(gathered.rest));
        gathered.full.lemma_flatten_push(gathered.rest);
    } else {
        assert(gathered.full + Seq::<Seq<u8>>::empty() == gathered.full);
        assert(gathered.rest == Seq::<u8>::empty());
        assert(gathered.full.flatten() + Seq::<u8>::empty() == gathered.full.flatten());
    }
}

/// Whether `cuts` mark where blocks of `chunks` start and end: block `k` is made of the whole
/// chunks from `cuts[k]` up to `cuts[k + 1]`, and the rest of the chunks behind the last cut.
/// A block has at least `preferred` bytes, and has them only since its last chunk; the rest has
/// fewer. Where no size is preferred each chunk is a block and nothing is left.
pub open spec fn cut_at(
    gathered: Gathered,
    chunks: Seq<Seq<u8>>,
    preferred: nat,
    cuts: Seq<int>,
) -> bool {
    &&& cuts.len() == gathered.full.len() + 1
    &&& cuts[0] == 0
    &&& cuts.last() <= chunks.len()
    &&& gathered.rest == chunks.skip(cuts.last()).flatten()
    &&& gathered.rest.len() < preferred || (preferred == 0 && cuts.last() == chunks.len())
    &&& forall|k: int|
        0 <= k < gathered.full.len() ==> block_cut_at(
            #[trigger] gathered.full[k],
            chunks,
            preferred,
            cuts[k],
            cuts[k + 1],
        )
}

/// Whether `block` is made of the whole chunks from `start` up to `end`, of which there is at
/// least one, and has `preferred` bytes with the last of them but not before.
pub open spec fn block_cut_at(
    block: Seq<u8>,
    chunks: Seq<Seq<u8>>,
    preferred: nat,
    start: int,
    end: int,
) -> bool {
    &&& 0 <= start < end <= chunks.len()
    &&& block == chunks.subrange(start, end).flatten()
    &&& block.len() >= preferred
    &&& end == start + 1 || chunks.subrange(start, end - 1).flatten().len() < preferred
}

/// Blocks are made of whole chunks and are no larger than they must be: each is a run of
/// consecutive chunks that has the preferred size with its last chunk and not before.
pub proof fn blocks_are_runs_of_chunks(chunks: Seq<Seq<u8>>, preferred: nat) -> (cuts: Seq<int>)
    ensures
        cut_at(gather(chunks, preferred), chunks, preferred, cuts),
    decreases chunks.len(),
{
    let gathered = gather(chunks, preferred);
    if chunks.len() == 0 {
        let cuts = seq![0int];
        assert(chunks.skip(0).flatten() == Seq::<u8>::empty());
        cuts
    } else {
        let fewer = chunks.drop_last();
        let last = chunks.last();
        let earlier = gather(fewer, preferred);
        let cuts = blocks_are_runs_of_chunks(fewer, preferred);
        let from = cuts.last();
        assert(0 <= from) by {
            if earlier.full.len() > 0 {
                let k = earlier.full.len() - 1;
                assert(block_cut_at(earlier.full[k], fewer, preferred, cuts[k], cuts[k + 1]));
            }
        }
        assert(chunks.skip(from) == fewer.skip(from).push(last));
        fewer.skip(from).lemma_flatten_push(last);
        assert(chunks.subrange(from, chunks.len() as int) == chunks.skip(from));
        assert(chunks.subrange(from, chunks.len() - 1) == fewer.skip(from));
        assert forall|k: int| 0 <= k < earlier.full.len() implies block_cut_at(
            #[trigger] earlier.full[k],
            chunks,
            preferred,
            cuts[k],
            cuts[k + 1],
        ) by {
            assert(block_cut_at(earlier.full[k], fewer, preferred, cuts[k], cuts[k + 1]));
            assert(chunks.subrange(cuts[k], cuts[k + 1]) == fewer.subrange(cuts[k], cuts[k + 1]));
            assert(chunks.subrange(cuts[k], cuts[k + 1] - 1) == fewer.subrange(
                cuts[k],
                cuts[k + 1] - 1,
            ));
        }
        if (earlier.rest + last).len() >= preferred {
            let longer = cuts.push(chunks.len() as int);
            assert(chunks.skip(chunks.len() as int).flatten() == Seq::<u8>::empty());
            assert forall|k: int| 0 <= k < gathered.full.len() implies block_cut_at(
                #[trigger] gathered.full[k],
                chunks,
                preferred,
                longer[k],
                longer[k + 1],
            ) by {
                if k < earlier.full.len() {
                    assert(gathered.full[k] == earlier.full[k]);
                }
            }
            longer
        } else {
            cuts
        }
    }
}

/// Each full block has the preferred size, and what waits is less than that: a reader misses
/// fewer bytes than one block of what has come.
pub proof fn little_waits(chunks: Seq<Seq<u8>>, preferred: nat)
    ensures
        forall|k: int|
            0 <= k < gather(chunks, preferred).full.len() ==> (#[trigger] gather(
                chunks,
                preferred,
            ).full[k]).len() >= preferred,
        preferred > 0 ==> chunks.flatten().len() - gather(chunks, preferred).full.flatten().len()
            < preferred,
        preferred == 0 ==> gather(chunks, preferred).full.flatten() == chunks.flatten(),
{
    let gathered = gather(chunks, preferred);
    let cuts = blocks_are_runs_of_chunks(chunks, preferred);
    gathering_keeps_bytes(chunks, preferred);
    assert forall|k: int| 0 <= k < gathered.full.len() implies (#[trigger] gathered.full[k]).len()
        >= preferred by {
        assert(block_cut_at(gathered.full[k], chunks, preferred, cuts[k], cuts[k + 1]));
    }
    if preferred == 0 {
        assert(chunks.skip(cuts.last()) == Seq::<Seq<u8>>::empty());
        assert(gathered.rest == Seq::<u8>::empty());
        assert(gathered.full.flatten() + gathered.rest == gathered.full.flatten());
    }
}

/// Where a size is preferred, no block is empty.
pub proof fn no_block_is_empty(chunks: Seq<Seq<u8>>, preferred: nat)
    requires
        preferred > 0,
    ensures
        forall|k: int|
            0 <= k < blocks_of(chunks, preferred).len() ==> (#[trigger] blocks_of(
                chunks,
                preferred,
            )[k]).len() > 0,
{
    let gathered = gather(chunks, preferred);
    little_waits(chunks, preferred);
    assert forall|k: int| 0 <= k < blocks_of(chunks, preferred).len() implies (
    #[trigger] blocks_of(chunks, preferred)[k]).len() > 0 by {
        if k < gathered.full.len() {
            assert(blocks_of(chunks, preferred)[k] == gathered.full[k]);
        }
    }
}

/// A full block stays what it is whatever comes later.
pub proof fn full_blocks_stay(chunks: Seq<Seq<u8>>, later: Seq<Seq<u8>>, preferred: nat)
    ensures
        gather(chunks, preferred).full.is_prefix_of(gather(chunks + later, preferred).full),
        gather(chunks, preferred).full.is_prefix_of(blocks_of(chunks + later, preferred)),
    decreases later.len(),
{
    if later.len() == 0 {
        assert(chunks + later == chunks);
    } else {
        full_blocks_stay(chunks, later.drop_last(), preferred);
        assert((chunks + later).drop_last() == chunks + later.drop_last());
    }
}

/// The first of some pieces, end to end, are the beginning of all of them, end to end.
pub proof fn first_pieces_begin_the_whole(pieces: Seq<Seq<u8>>, n: int)
    requires
        0 <= n <= pieces.len(),
    ensures
        pieces.take(n).flatten().is_prefix_of(pieces.flatten()),
{
    assert(pieces == pieces.take(n) + pieces.skip(n));
    vstd::seq_lib::lemma_flatten_concat(pieces.take(n), pieces.skip(n));
}

/// A reader that has taken the first `n` blocks of an upload has the beginning of it, and has
/// all of it with the last block.
pub proof fn readers_get_the_upload(chunks: Seq<Seq<u8>>, preferred: nat, n: int)
    requires
        0 <= n <= blocks_of(chunks, preferred).len(),
    ensures
        blocks_of(chunks, preferred).take(n).flatten().is_prefix_of(chunks.flatten()),
        n == blocks_of(chunks, preferred).len() ==> blocks_of(chunks, preferred).take(n).flatten()
            == chunks.flatten(),
{
    let blocks = blocks_of(chunks, preferred);
    first_pieces_begin_the_whole(blocks, n);
    blocks_are_the_upload(chunks, preferred);
    assert(blocks.take(blocks.len() as int) == blocks);
}

/// A reader need not wait for the end: the first `n` full blocks of what has come are the
/// beginning of what has come, and still are once all has come.
pub proof fn readers_need_not_wait(
    chunks: Seq<Seq<u8>>,
    later: Seq<Seq<u8>>,
    preferred: nat,
    n: int,
)
    requires
        0 <= n <= gather(chunks, preferred).full.len(),
    ensures
        gather(chunks, preferred).full.take(n).flatten().is_prefix_of(chunks.flatten()),
        gather(chunks, preferred).full.take(n) == blocks_of(chunks + later, preferred).take(n),
{
    let full = gather(chunks, preferred).full;
    first_pieces_begin_the_whole(full, n);
    gathering_keeps_bytes(chunks, preferred);
    assert(full.take(n).flatten().is_prefix_of(chunks.flatten())) by {
        assert(full.flatten() == chunks.flatten().subrange(0, full.flatten().len() as int));
    }
    full_blocks_stay(chunks, later, preferred);
}

} // verus!
