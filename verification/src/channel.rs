//! The broadcast channel that carries the blocks of a file from its writer to its readers.

use async_broadcast::{Receiver, Sender};
use vstd::prelude::*;

verus! {

/// The writing end of a broadcast channel.
#[verifier::external_type_specification]
#[verifier::external_body]
#[verifier::reject_recursive_types(T)]
pub struct ExSender<T>(Sender<T>);

/// The reading end of a broadcast channel.
#[verifier::external_type_specification]
#[verifier::external_body]
#[verifier::reject_recursive_types(T)]
pub struct ExReceiver<T>(Receiver<T>);

/// Whether `receiver` belongs to the channel that `sender` writes to and stands at the
/// channel's very first block.
///
/// Such a receiver hands out the blocks of the channel in the order in which they were sent. How
/// many there are at a given moment rests on the tasks at both ends, and nothing is said of it.
pub uninterp spec fn at_start_of(receiver: Receiver<Vec<u8>>, sender: Sender<Vec<u8>>) -> bool;

/// The number of blocks that the channel of `sender` was made to hold.
pub uninterp spec fn block_limit(sender: Sender<Vec<u8>>) -> nat;

/// The most blocks a channel can be made for: it sets aside a slot of four words for each, and
/// one allocation holds at most `isize::MAX` bytes.
pub open spec fn max_block_limit() -> int {
    if usize::BITS == 64 {
        isize::MAX as int / 32
    } else {
        isize::MAX as int / 16
    }
}

/// Calls `async_broadcast::broadcast`, which makes a channel that holds at most `blocks` blocks
/// and never drops one to make room.
///
/// Believed: the two ends belong to one channel, made for `blocks` blocks, and the receiver
/// stands at its first block. Nothing is said of what goes through the channel later. A limit of
/// zero, or one whose slots no allocation can hold, makes the call panic, and is left out.
#[verifier::external_body]
pub(crate) fn open_channel(blocks: usize) -> (ends: (Sender<Vec<u8>>, Receiver<Vec<u8>>))
    requires
        0 < blocks <= max_block_limit(),
    ensures
        at_start_of(ends.1, ends.0),
        block_limit(ends.0) == blocks,
{
    async_broadcast::broadcast(blocks)
}

/// Calls `clone` of `async_broadcast::Receiver`, which makes a second receiver of the same
/// channel with the same position in it.
///
/// Believed: the clone stands at the start of a channel exactly if the receiver does.
#[verifier::external_body]
pub(crate) fn same_position(receiver: &Receiver<Vec<u8>>) -> (copy: Receiver<Vec<u8>>)
    ensures
        forall|sender: Sender<Vec<u8>>|
            #[trigger] at_start_of(copy, sender) == at_start_of(*receiver, sender),
{
    receiver.clone()
}

} // verus!
