//! What comes of an upload, from its first chunk to its end.

use async_broadcast::Sender;
use axum::http::{HeaderMap, HeaderValue};
use vstd::prelude::*;

use crate::blocks::rest_block;
use crate::channel::block_limit;
use crate::handlers::{begin_upload, put_stream};
use crate::status::Status;
use crate::upload::{Action, BodyEvent, Upload};
use crate::video_store::{VideoStore, VideoStoreConfig};

verus! {

/// The bytes of some chunks, end to end.
pub open spec fn bytes_of(chunks: Seq<&[u8]>) -> Seq<u8>
    decreases chunks.len(),
{
    if chunks.len() == 0 {
        Seq::empty()
    } else {
        bytes_of(chunks.drop_last()) + chunks.last()@
    }
}

/// The bytes that some actions send, end to end.
pub open spec fn bytes_sent(actions: Seq<Action>) -> Seq<u8>
    decreases actions.len(),
{
    if actions.len() == 0 {
        Seq::empty()
    } else {
        bytes_sent(actions.drop_last()) + match actions.last() {
            Action::Broadcast(block) => block@,
            Action::Finish { last: Some(block), .. } => block@,
            _ => Seq::empty(),
        }
    }
}

/// What is known of one step: it keeps the channel and the preferred size, and sends the bytes
/// that wait once they are enough.
spec fn stepped(before: Upload, chunk: Seq<u8>, after: Upload, action: Action) -> bool {
    let bytes = before.pending() + chunk;
    &&& after.wf()
    &&& !after.is_finished()
    &&& after.preferred() == before.preferred()
    &&& after.channel() == before.channel()
    &&& if bytes.len() >= before.preferred() {
        &&& action matches Action::Broadcast(block)
        &&& block@ == bytes
        &&& after.pending().len() == 0
    } else {
        action is ReadOn && after.pending() == bytes
    }
}

/// A call of `step` is one step.
proof fn lemma_step(before: Upload, chunk: &[u8], after: Upload, action: Action)
    requires
        exists|upload: &mut Upload|
            *upload == before && *final(upload) == after && #[trigger] call_ensures(
                Upload::step,
                (upload, BodyEvent::Chunk(chunk)),
                action,
            ),
    ensures
        stepped(before, chunk@, after, action),
{
}

/// What is known of an upload into which some chunks were stepped one after the other: the bytes
/// that came and were not sent are those that wait.
proof fn lemma_steps(
    uploads: Seq<Upload>,
    chunks: Seq<&[u8]>,
    actions: Seq<Action>,
    preferred: nat,
    k: int,
)
    requires
        0 <= k <= chunks.len(),
        uploads.len() == chunks.len() + 1,
        actions.len() == chunks.len(),
        uploads[0].wf(),
        !uploads[0].is_finished(),
        uploads[0].received().len() == 0,
        uploads[0].preferred() == preferred,
        forall|i: int|
            0 <= i < chunks.len() ==> stepped(
                uploads[i],
                chunks[i]@,
                uploads[i + 1],
                #[trigger] actions[i],
            ),
    ensures
        uploads[k].wf(),
        !uploads[k].is_finished(),
        uploads[k].preferred() == preferred,
        uploads[k].channel() == uploads[0].channel(),
        bytes_sent(actions.take(k)) + uploads[k].pending() == bytes_of(chunks.take(k)),
        k > 0 && preferred > 0 ==> uploads[k].pending().len() < preferred,
        k > 0 && preferred == 0 ==> uploads[k].pending().len() == 0,
        k < chunks.len() ==> {
            let bytes = uploads[k].pending() + chunks[k]@;
            if bytes.len() >= preferred {
                actions[k] matches Action::Broadcast(block) && block@ == bytes
            } else {
                actions[k] is ReadOn
            }
        },
    decreases k,
{
    if k == 0 {
        assert(uploads[0].pending().len() == 0);
        assert(bytes_sent(actions.take(0)) + uploads[0].pending() == bytes_of(chunks.take(0)));
    } else {
        lemma_steps(uploads, chunks, actions, preferred, k - 1);
        assert(stepped(uploads[k - 1], chunks[k - 1]@, uploads[k], actions[k - 1]));
        assert(chunks.take(k).drop_last() == chunks.take(k - 1));
        assert(actions.take(k).drop_last() == actions.take(k - 1));
        assert(bytes_sent(actions.take(k)) + uploads[k].pending() == bytes_of(chunks.take(k)));
    }
    if k < chunks.len() {
        assert(stepped(uploads[k], chunks[k]@, uploads[k + 1], actions[k]));
    }
}

/// An upload sends its body and nothing else, and sends it in time. Let an upload be begun at any
/// path of any store, with a content type or with headers that declare it, and chunks be stepped in one after the other. A step sends all the bytes
/// that came and were not sent yet as one block, if they are at least as many as the store's
/// configuration prefers; otherwise it sends nothing. So fewer bytes than that ever wait.
/// All along the blocks go to one and the same channel, with the configured limit.
pub proof fn steps_send_what_came(
    before: VideoStore,
    config: &VideoStoreConfig,
    path: String,
    content_type: Option<String>,
    headers: &HeaderMap<HeaderValue>,
    after: VideoStore,
    uploads: Seq<Upload>,
    chunks: Seq<&[u8]>,
    actions: Seq<Action>,
    k: int,
    first_handle: &Sender<Vec<u8>>,
    handle: &Sender<Vec<u8>>,
    pending_len: usize,
)
    requires
        call_ensures(VideoStore::config, (&before,), config),
        (exists|store: &mut VideoStore|
            *store == before && *final(store) == after && #[trigger] call_ensures(
                begin_upload,
                (store, path, content_type),
                Ok::<Upload, Status>(uploads[0]),
            )) || (exists|store: &mut VideoStore|
            *store == before && *final(store) == after && #[trigger] call_ensures(
                put_stream,
                (store, path, headers),
                Ok::<Upload, Status>(uploads[0]),
            )),
        uploads.len() == chunks.len() + 1,
        actions.len() == chunks.len(),
        forall|i: int|
            0 <= i < chunks.len() ==> exists|upload: &mut Upload|
                *upload == uploads[i] && *final(upload) == uploads[i + 1]
                    && #[trigger] call_ensures(
                    Upload::step,
                    (upload, BodyEvent::Chunk(chunks[i])),
                    #[trigger] actions[i],
                ),
        0 <= k < chunks.len(),
        call_ensures(Upload::handle, (&uploads[0],), first_handle),
        call_ensures(Upload::handle, (&uploads[k + 1],), handle),
        call_ensures(Upload::pending_len, (&uploads[k + 1],), pending_len),
    ensures
        ({
            let came = bytes_of(chunks.take(k + 1));
            let gone = bytes_sent(actions.take(k));
            let waiting = came.len() - bytes_sent(actions.take(k + 1)).len();
            &&& gone.len() <= came.len()
            &&& if came.len() - gone.len() >= config.file_preferred_block_size {
                actions[k] matches Action::Broadcast(block) && gone + block@ == came
            } else {
                actions[k] is ReadOn
            }
            &&& bytes_sent(actions.take(k + 1)).is_prefix_of(came)
            &&& 0 <= waiting
            &&& config.file_preferred_block_size > 0 ==> waiting < config.file_preferred_block_size
            &&& config.file_preferred_block_size == 0 ==> waiting == 0
            &&& pending_len == waiting
        }),
        *handle == *first_handle,
        block_limit(*handle) == config.file_allocated_blocks_no,
{
    assert forall|i: int| 0 <= i < chunks.len() implies stepped(
        uploads[i],
        chunks[i]@,
        uploads[i + 1],
        #[trigger] actions[i],
    ) by {
        lemma_step(uploads[i], chunks[i], uploads[i + 1], actions[i]);
    }
    let preferred = config.file_preferred_block_size as nat;
    lemma_steps(uploads, chunks, actions, preferred, k);
    lemma_steps(uploads, chunks, actions, preferred, k + 1);
    let came = bytes_of(chunks.take(k + 1));
    let gone = bytes_sent(actions.take(k));
    assert(chunks.take(k + 1).drop_last() == chunks.take(k));
    assert(actions.take(k + 1).drop_last() == actions.take(k));
    assert(came == gone + (uploads[k].pending() + chunks[k]@));
    assert(bytes_sent(actions.take(k + 1)).is_prefix_of(came));
}

/// The bytes of an upload arrive as they are. Let an upload be begun at any path of any store,
/// chunks be stepped in one after the other, and the body then end or fail. The blocks of all
/// actions, end to end, are the chunks, end to end; the last block is there only if bytes are
/// left for it. A body that ended is answered with 201, one that failed with 400.
pub proof fn whole_upload_sends_its_body(
    before: VideoStore,
    path: String,
    content_type: Option<String>,
    headers: &HeaderMap<HeaderValue>,
    after: VideoStore,
    uploads: Seq<Upload>,
    chunks: Seq<&[u8]>,
    actions: Seq<Action>,
    end: BodyEvent,
    finished: Upload,
    last_action: Action,
)
    requires
        (exists|store: &mut VideoStore|
            *store == before && *final(store) == after && #[trigger] call_ensures(
                begin_upload,
                (store, path, content_type),
                Ok::<Upload, Status>(uploads[0]),
            )) || (exists|store: &mut VideoStore|
            *store == before && *final(store) == after && #[trigger] call_ensures(
                put_stream,
                (store, path, headers),
                Ok::<Upload, Status>(uploads[0]),
            )),
        uploads.len() == chunks.len() + 1,
        actions.len() == chunks.len(),
        forall|i: int|
            0 <= i < chunks.len() ==> exists|upload: &mut Upload|
                *upload == uploads[i] && *final(upload) == uploads[i + 1]
                    && #[trigger] call_ensures(
                    Upload::step,
                    (upload, BodyEvent::Chunk(chunks[i])),
                    #[trigger] actions[i],
                ),
        !(end is Chunk),
        exists|upload: &mut Upload|
            *upload == uploads[chunks.len() as int] && *final(upload) == finished
                && #[trigger] call_ensures(Upload::step, (upload, end), last_action),
    ensures
        bytes_sent(actions.push(last_action)) == bytes_of(chunks),
        forall|i: int| 0 <= i < actions.len() ==> !(#[trigger] actions[i] is Finish),
        match last_action {
            Action::Finish { last, status } => {
                &&& last is Some <==> bytes_sent(actions).len() < bytes_of(chunks).len()
                &&& status.spec_code() == if end is Ended {
                    201
                } else {
                    400u16
                }
            },
            _ => false,
        },
{
    assert forall|i: int| 0 <= i < chunks.len() implies stepped(
        uploads[i],
        chunks[i]@,
        uploads[i + 1],
        #[trigger] actions[i],
    ) by {
        lemma_step(uploads[i], chunks[i], uploads[i + 1], actions[i]);
    }
    lemma_begun_upload(before, path, content_type, headers, after, uploads[0]);
    lemma_whole_upload(uploads, chunks, actions, end, finished, last_action);
}

/// A begun upload has nothing in it yet.
proof fn lemma_begun_upload(
    before: VideoStore,
    path: String,
    content_type: Option<String>,
    headers: &HeaderMap<HeaderValue>,
    after: VideoStore,
    upload: Upload,
)
    requires
        (exists|store: &mut VideoStore|
            *store == before && *final(store) == after && #[trigger] call_ensures(
                begin_upload,
                (store, path, content_type),
                Ok::<Upload, Status>(upload),
            )) || (exists|store: &mut VideoStore|
            *store == before && *final(store) == after && #[trigger] call_ensures(
                put_stream,
                (store, path, headers),
                Ok::<Upload, Status>(upload),
            )),
    ensures
        upload.wf(),
        !upload.is_finished(),
        upload.received().len() == 0,
        upload.sent().len() == 0,
        upload.pending().len() == 0,
{
}

/// What is known of a whole upload that starts with nothing in it.
proof fn lemma_whole_upload(
    uploads: Seq<Upload>,
    chunks: Seq<&[u8]>,
    actions: Seq<Action>,
    end: BodyEvent,
    finished: Upload,
    last_action: Action,
)
    requires
        uploads.len() == chunks.len() + 1,
        actions.len() == chunks.len(),
        uploads[0].wf(),
        !uploads[0].is_finished(),
        uploads[0].received().len() == 0,
        forall|i: int|
            0 <= i < chunks.len() ==> stepped(
                uploads[i],
                chunks[i]@,
                uploads[i + 1],
                #[trigger] actions[i],
            ),
        !(end is Chunk),
        exists|upload: &mut Upload|
            *upload == uploads[chunks.len() as int] && *final(upload) == finished
                && #[trigger] call_ensures(Upload::step, (upload, end), last_action),
    ensures
        bytes_sent(actions.push(last_action)) == bytes_of(chunks),
        forall|i: int| 0 <= i < actions.len() ==> !(#[trigger] actions[i] is Finish),
        match last_action {
            Action::Finish { last, status } => {
                &&& last is Some <==> bytes_sent(actions).len() < bytes_of(chunks).len()
                &&& status.spec_code() == if end is Ended {
                    201
                } else {
                    400u16
                }
            },
            _ => false,
        },
{
    let preferred = uploads[0].preferred();
    let n = chunks.len() as int;
    lemma_steps(uploads, chunks, actions, preferred, n);
    assert(chunks.take(n) == chunks);
    assert(actions.take(n) == actions);
    assert forall|i: int| 0 <= i < actions.len() implies !(#[trigger] actions[i] is Finish) by {
        lemma_steps(uploads, chunks, actions, preferred, i);
    }
    assert(actions.push(last_action).drop_last() == actions);
    let rest = uploads[n].pending();
    assert(last_action is Finish);
    assert(last_action.blocks() == rest_block(rest));
    match last_action {
        Action::Finish { last: Some(block), .. } => {
            assert(last_action.blocks()[0] == block@);
        },
        _ => {
            assert(rest.len() == 0) by {
                if rest.len() > 0 {
                    assert(rest_block(rest).len() == 1);
                }
            }
        },
    }
    assert(bytes_sent(actions.push(last_action)) == bytes_of(chunks));
}

/// The same of an upload that is begun with a handle and a preferred size of the caller's own:
/// its blocks are the chunks, end to end, and go to that handle. Each block but the last has the
/// preferred size and fewer bytes than that ever wait. It takes on whatever comes next, as long as
/// one block can hold it.
pub proof fn own_upload_sends_its_body(
    handle: Sender<Vec<u8>>,
    preferred_block_size: usize,
    uploads: Seq<Upload>,
    chunks: Seq<&[u8]>,
    actions: Seq<Action>,
    k: int,
    kept: &Sender<Vec<u8>>,
    end: BodyEvent,
    finished: Upload,
    last_action: Action,
)
    requires
        call_ensures(Upload::new, (handle, preferred_block_size), uploads[0]),
        preferred_block_size <= isize::MAX,
        uploads.len() == chunks.len() + 1,
        actions.len() == chunks.len(),
        forall|i: int|
            0 <= i < chunks.len() ==> exists|upload: &mut Upload|
                *upload == uploads[i] && *final(upload) == uploads[i + 1]
                    && #[trigger] call_ensures(
                    Upload::step,
                    (upload, BodyEvent::Chunk(chunks[i])),
                    #[trigger] actions[i],
                ),
        0 <= k <= chunks.len(),
        call_ensures(Upload::handle, (&uploads[k],), kept),
        !(end is Chunk),
        exists|upload: &mut Upload|
            *upload == uploads[chunks.len() as int] && *final(upload) == finished
                && #[trigger] call_ensures(Upload::step, (upload, end), last_action),
    ensures
        call_requires(Upload::new, (handle, preferred_block_size)),
        *kept == handle,
        bytes_sent(actions.push(last_action)) == bytes_of(chunks),
        match last_action {
            Action::Finish { last, status } => {
                &&& last is Some <==> bytes_sent(actions).len() < bytes_of(chunks).len()
                &&& status.spec_code() == if end is Ended {
                    201
                } else {
                    400u16
                }
            },
            _ => false,
        },
        k < chunks.len() ==> {
            let came = bytes_of(chunks.take(k + 1));
            let gone = bytes_sent(actions.take(k));
            &&& gone.len() <= came.len()
            &&& if came.len() - gone.len() >= preferred_block_size {
                actions[k] matches Action::Broadcast(block) && gone + block@ == came
            } else {
                actions[k] is ReadOn
            }
        },
        forall|upload: &mut Upload, event: BodyEvent|
            *upload == uploads[k] && (event matches BodyEvent::Chunk(chunk) ==> bytes_of(
                chunks.take(k),
            ).len() - bytes_sent(actions.take(k)).len() + chunk@.len() <= isize::MAX)
                ==> #[trigger] call_requires(Upload::step, (upload, event)),
{
    assert forall|i: int| 0 <= i < chunks.len() implies stepped(
        uploads[i],
        chunks[i]@,
        uploads[i + 1],
        #[trigger] actions[i],
    ) by {
        lemma_step(uploads[i], chunks[i], uploads[i + 1], actions[i]);
    }
    let preferred = preferred_block_size as nat;
    lemma_steps(uploads, chunks, actions, preferred, k);
    lemma_whole_upload(uploads, chunks, actions, end, finished, last_action);
    if k < chunks.len() {
        assert(chunks.take(k + 1).drop_last() == chunks.take(k));
        assert(bytes_of(chunks.take(k + 1)) == bytes_sent(actions.take(k)) + (uploads[k].pending()
            + chunks[k]@));
    }
}

/// An upload that was begun on a store takes on whatever comes next, as long as one block can
/// hold it.
pub proof fn begun_upload_goes_on(
    before: VideoStore,
    path: String,
    content_type: Option<String>,
    headers: &HeaderMap<HeaderValue>,
    after: VideoStore,
    uploads: Seq<Upload>,
    chunks: Seq<&[u8]>,
    actions: Seq<Action>,
)
    requires
        (exists|store: &mut VideoStore|
            *store == before && *final(store) == after && #[trigger] call_ensures(
                begin_upload,
                (store, path, content_type),
                Ok::<Upload, Status>(uploads[0]),
            )) || (exists|store: &mut VideoStore|
            *store == before && *final(store) == after && #[trigger] call_ensures(
                put_stream,
                (store, path, headers),
                Ok::<Upload, Status>(uploads[0]),
            )),
        uploads.len() == chunks.len() + 1,
        actions.len() == chunks.len(),
        forall|i: int|
            0 <= i < chunks.len() ==> exists|upload: &mut Upload|
                *upload == uploads[i] && *final(upload) == uploads[i + 1]
                    && #[trigger] call_ensures(
                    Upload::step,
                    (upload, BodyEvent::Chunk(chunks[i])),
                    #[trigger] actions[i],
                ),
    ensures
        forall|upload: &mut Upload, event: BodyEvent|
            *upload == uploads[chunks.len() as int] && (event matches BodyEvent::Chunk(chunk)
                ==> bytes_of(chunks).len() - bytes_sent(actions).len() + chunk@.len()
                <= isize::MAX) ==> #[trigger] call_requires(Upload::step, (upload, event)),
{
    assert forall|i: int| 0 <= i < chunks.len() implies stepped(
        uploads[i],
        chunks[i]@,
        uploads[i + 1],
        #[trigger] actions[i],
    ) by {
        lemma_step(uploads[i], chunks[i], uploads[i + 1], actions[i]);
    }
    let n = chunks.len() as int;
    lemma_steps(uploads, chunks, actions, uploads[0].preferred(), n);
    assert(chunks.take(n) == chunks);
    assert(actions.take(n) == actions);
}

} // verus!
