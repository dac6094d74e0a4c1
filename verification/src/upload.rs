//! The state of an upload: what is done with each part of a request's body.

use async_broadcast::Sender;
use vstd::prelude::*;

use crate::blocks::{
    blocks_are_the_upload, blocks_of, gather, gathering_keeps_bytes, rest_block,
};
use crate::status::Status;

verus! {

/// What comes of the body of an upload.
pub enum BodyEvent<'a> {
    /// The next bytes.
    Chunk(&'a [u8]),
    /// The connection failed: no more bytes will come.
    Failed,
    /// The body is complete.
    Ended,
}

/// What is to be done before the body is read on.
pub enum Action {
    /// Nothing.
    ReadOn,
    /// Send this block to the file's channel.
    Broadcast(Vec<u8>),
    /// Send the last block, if there is one, close the channel and answer with the status.
    Finish {
        /// The last block.
        last: Option<Vec<u8>>,
        /// The answer to the upload.
        status: Status,
    },
}

impl Action {
    /// The blocks that the action sends.
    pub open spec fn blocks(self) -> Seq<Seq<u8>> {
        match self {
            Action::ReadOn => Seq::empty(),
            Action::Broadcast(block) => seq![block@],
            Action::Finish { last: Some(block), .. } => seq![block@],
            Action::Finish { last: None, .. } => Seq::empty(),
        }
    }
}

/// An upload in progress.
pub struct Upload {
    /// The channel of the file.
    handle: Sender<Vec<u8>>,
    /// The bytes that wait to be sent.
    new_block: Vec<u8>,
    /// The number of bytes from which on a block is sent.
    preferred_block_size: usize,
    /// Whether the body has come to its end.
    finished: bool,
    /// The chunks that came.
    received: Ghost<Seq<Seq<u8>>>,
    /// The blocks that were given out to be sent.
    sent: Ghost<Seq<Seq<u8>>>,
}

impl Upload {
    /// The channel of the file.
    pub closed spec fn channel(&self) -> Sender<Vec<u8>> {
        self.handle
    }

    /// The number of bytes from which on a block is sent.
    pub closed spec fn preferred(&self) -> nat {
        self.preferred_block_size as nat
    }

    /// The bytes that wait to be sent.
    pub closed spec fn pending(&self) -> Seq<u8> {
        self.new_block@
    }

    /// Whether the body has come to its end.
    pub closed spec fn is_finished(&self) -> bool {
        self.finished
    }

    /// The chunks that came so far.
    pub closed spec fn received(&self) -> Seq<Seq<u8>> {
        self.received@
    }

    /// The blocks that were given out so far to be sent.
    pub closed spec fn sent(&self) -> Seq<Seq<u8>> {
        self.sent@
    }

    /// What has been sent and what waits is what the chunks that came make.
    pub open spec fn wf(&self) -> bool {
        &&& self.preferred() <= isize::MAX
        &&& if self.is_finished() {
            self.sent() == blocks_of(self.received(), self.preferred())
        } else {
            &&& self.sent() == gather(self.received(), self.preferred()).full
            &&& self.pending() == gather(self.received(), self.preferred()).rest
        }
    }

    /// Starts an upload to the file that `handle` writes.
    pub fn new(handle: Sender<Vec<u8>>, preferred_block_size: usize) -> (upload: Self)
        requires
            preferred_block_size <= isize::MAX,
        ensures
            upload.wf(),
            upload.channel() == handle,
            upload.preferred() == preferred_block_size,
            !upload.is_finished(),
            upload.received() == Seq::<Seq<u8>>::empty(),
    {
        Upload {
            handle,
            new_block: Vec::with_capacity(preferred_block_size),
            preferred_block_size,
            finished: false,
            received: Ghost(Seq::empty()),
            sent: Ghost(Seq::empty()),
        }
    }

    /// The channel to send the blocks to.
    pub fn handle(&self) -> (handle: &Sender<Vec<u8>>)
        ensures
            *handle == self.channel(),
    {
        &self.handle
    }

    /// The number of bytes that wait to be sent.
    pub fn pending_len(&self) -> (len: usize)
        ensures
            len == self.pending().len(),
    {
        self.new_block.len()
    }

    /// Takes in what came of the body and tells what to do.
    ///
    /// A chunk is put to the bytes that wait; they are sent once they are as many as preferred.
    /// When the body is complete, or has failed, what waits is sent as the last block.
    pub fn step(&mut self, event: BodyEvent) -> (action: Action)
        requires
            old(self).wf(),
            !old(self).is_finished(),
            event matches BodyEvent::Chunk(chunk) ==> old(self).pending().len() + chunk@.len()
                <= isize::MAX,
        ensures
            final(self).wf(),
            final(self).channel() == old(self).channel(),
            final(self).preferred() == old(self).preferred(),
            final(self).sent() == old(self).sent() + action.blocks(),
            match event {
                BodyEvent::Chunk(chunk) => {
                    let bytes = old(self).pending() + chunk@;
                    &&& final(self).received() == old(self).received().push(chunk@)
                    &&& !final(self).is_finished()
                    &&& if bytes.len() >= old(self).preferred() {
                        &&& action matches Action::Broadcast(block)
                        &&& block@ == bytes
                        &&& final(self).pending().len() == 0
                    } else {
                        &&& action is ReadOn
                        &&& final(self).pending() == bytes
                    }
                },
                BodyEvent::Failed => {
                    &&& final(self).received() == old(self).received()
                    &&& final(self).is_finished()
                    &&& action.blocks() == rest_block(old(self).pending())
                    &&& action matches Action::Finish { status, .. }
                    &&& status == Status::BadRequest
                },
                BodyEvent::Ended => {
                    &&& final(self).received() == old(self).received()
                    &&& final(self).is_finished()
                    &&& action.blocks() == rest_block(old(self).pending())
                    &&& action matches Action::Finish { status, .. }
                    &&& status == Status::Created
                },
            },
    {
        match event {
            BodyEvent::Chunk(chunk) => {
                proof {
                    self.received@ = self.received@.push(chunk@);
                    assert(self.received@.drop_last() == old(self).received());
                }
                self.new_block.extend_from_slice(chunk);
                assert(self.new_block@ == old(self).pending() + chunk@);
                if self.new_block.len() >= self.preferred_block_size {
                    let mut block: Vec<u8> = Vec::with_capacity(self.preferred_block_size);
                    std::mem::swap(&mut block, &mut self.new_block);
                    proof {
                        self.sent@ = self.sent@.push(block@);
                        assert(self.sent() == old(self).sent() + seq![block@]);
                    }
                    Action::Broadcast(block)
                } else {
                    assert(self.sent() == old(self).sent() + Seq::<Seq<u8>>::empty());
                    Action::ReadOn
                }
            },
            BodyEvent::Failed => Action::Finish {
                last: self.finish(),
                status: Status::BadRequest,
            },
            BodyEvent::Ended => Action::Finish { last: self.finish(), status: Status::Created },
        }
    }

    /// No byte of an upload is lost, added or moved: the blocks that were sent, and the bytes
    /// that wait while it goes on, are the chunks that came, end to end.
    pub proof fn sent_is_what_came(&self)
        requires
            self.wf(),
        ensures
            if self.is_finished() {
                self.sent().flatten() == self.received().flatten()
            } else {
                self.sent().flatten() + self.pending() == self.received().flatten()
            },
    {
        blocks_are_the_upload(self.received(), self.preferred());
        gathering_keeps_bytes(self.received(), self.preferred());
    }

    /// Marks the upload as finished and gives out what waits to be sent.
    fn finish(&mut self) -> (last: Option<Vec<u8>>)
        requires
            old(self).wf(),
            !old(self).is_finished(),
        ensures
            final(self).wf(),
            final(self).is_finished(),
            final(self).channel() == old(self).channel(),
            final(self).preferred() == old(self).preferred(),
            final(self).received() == old(self).received(),
            final(self).sent() == old(self).sent() + rest_block(old(self).pending()),
            match last {
                Some(block) => rest_block(old(self).pending()) == seq![block@],
                None => rest_block(old(self).pending()) == Seq::<Seq<u8>>::empty(),
            },
    {
        self.finished = true;
        proof {
            self.sent@ = self.sent@ + rest_block(self.new_block@);
        }
        if self.new_block.is_empty() {
            None
        } else {
            let mut block: Vec<u8> = Vec::new();
            std::mem::swap(&mut block, &mut self.new_block);
            Some(block)
        }
    }
}

} // verus!
