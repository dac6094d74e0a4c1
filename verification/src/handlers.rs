//! What the server does with each kind of request.

use async_broadcast::{Receiver, Sender};
use axum::http::{HeaderMap, HeaderValue};
use vstd::prelude::*;

use crate::channel::{at_start_of, block_limit};
use crate::headers::{content_type, declared_content_type, text_of};
use crate::paths::{
    contains_early_wildcard, contains_wildcard, has_early_wildcard, has_wildcard,
};
use crate::status::Status;
use crate::trie::{lists_in_order, lists_prefix_in_order, texts};
use crate::upload::Upload;
use crate::video_store::VideoStore;

verus! {

/// The home page.
pub const HELP_PAGE: &'static str =
    "<h1>RustStreamServer</h1><p>Individual streams (`/{streamName}`) accept methods GET, PUT, DELETE</p><p>To list all streams matching a prefix, use custom HTTP method LIST on (`/{prefix}*`)</p>";

/// Returns the content of the home page (`/`).
pub fn show_help_page() -> (content: &'static str)
    ensures
        content@ == HELP_PAGE@,
{
    HELP_PAGE
}

/// Whether an upload to `path` with this content type is valid: the path holds no wildcard, and
/// a content type is declared.
pub open spec fn accepts_upload(path: Seq<char>, content_type: Option<Seq<char>>) -> bool {
    !has_wildcard(path) && content_type is Some
}

/// What `put_stream` and `begin_upload` do: a valid upload puts a new file at the path in place
/// of any that was there, empty so far, with the declared content type, and written by the
/// upload's channel. Any other is refused and changes nothing.
pub open spec fn puts(
    before: VideoStore,
    path: Seq<char>,
    content_type: Option<Seq<char>>,
    after: VideoStore,
    begun: Result<Upload, Status>,
) -> bool {
    &&& after.spec_config() == before.spec_config()
    &&& begun is Ok <==> accepts_upload(path, content_type)
    &&& match begun {
        Ok(upload) => {
            &&& after@.contains_key(path)
            &&& after@ == before@.insert(path, after@[path])
            &&& content_type == Some(after@[path].content_type_text())
            &&& after@[path].is_written_by(upload.channel())
            &&& block_limit(upload.channel()) == before.spec_config().file_allocated_blocks_no
            &&& upload.wf()
            &&& !upload.is_finished()
            &&& upload.received() == Seq::<Seq<u8>>::empty()
            &&& upload.preferred() == before.spec_config().file_preferred_block_size
        },
        Err(status) => status == Status::BadRequest && after@ == before@,
    }
}

/// Accepts an upload to `path`.
///
/// The path must not hold a wildcard, and the headers must declare a content type; otherwise
/// nothing is stored. A valid upload overwrites the file that was at the path. The file is there
/// for readers at once; its blocks come as the upload is carried on.
pub fn put_stream(store: &mut VideoStore, path: String, headers: &HeaderMap<HeaderValue>) -> (begun:
    Result<Upload, Status>)
    requires
        old(store).wf(),
        accepts_upload(path@, declared_content_type(*headers)) ==> path@.len() > 0 && old(
            store,
        ).spec_config().usable(),
    ensures
        final(store).wf(),
        puts(*old(store), path@, declared_content_type(*headers), *final(store), begun),
{
    begin_upload(store, path, content_type(headers))
}

/// Accepts an upload to `path` of a file with the given content type, if there is one.
pub fn begin_upload(store: &mut VideoStore, path: String, content_type: Option<String>) -> (begun:
    Result<Upload, Status>)
    requires
        old(store).wf(),
        accepts_upload(path@, text_of(content_type)) ==> path@.len() > 0 && old(
            store,
        ).spec_config().usable(),
    ensures
        final(store).wf(),
        puts(*old(store), path@, text_of(content_type), *final(store), begun),
{
    if contains_wildcard(path.as_str()) {
        return Err(Status::BadRequest);
    }
    match content_type {
        None => Err(Status::BadRequest),
        Some(content_type) => {
            let handle = store.create(path, content_type);
            let preferred_block_size: usize = store.config().file_preferred_block_size;
            Ok(Upload::new(handle, preferred_block_size))
        },
    }
}

/// A file to be sent to a reader.
pub struct Download {
    /// The status of the answer.
    pub status: Status,
    /// The content type of the file.
    pub content_type: String,
    /// The blocks of the file, from the first on.
    pub blocks: Receiver<Vec<u8>>,
}

/// What `get_stream` answers: the content type of the file at the path and a receiver that
/// stands at the file's first block, or that there is no such file.
pub open spec fn gets(
    store: VideoStore,
    path: Seq<char>,
    answer: Result<Download, Status>,
) -> bool {
    &&& answer is Ok <==> store@.contains_key(path)
    &&& match answer {
        Ok(download) => {
            &&& download.status == Status::Success
            &&& download.content_type@ == store@[path].content_type_text()
            &&& forall|handle: Sender<Vec<u8>>|
                #[trigger] at_start_of(download.blocks, handle) == store@[path].is_written_by(
                    handle,
                )
        },
        Err(status) => status == Status::NotFound,
    }
}

/// Retrieves the file at `path`. Where it is not yet fully uploaded, its blocks keep coming as
/// they are received.
pub fn get_stream(store: &VideoStore, path: &str) -> (answer: Result<Download, Status>)
    ensures
        gets(*store, path@, answer),
{
    match store.get(path) {
        None => Err(Status::NotFound),
        Some(video_file) => Ok(
            Download {
                status: Status::Success,
                content_type: video_file.content_type().to_owned(),
                blocks: video_file.data_stream(),
            },
        ),
    }
}

/// What `delete_stream` does: it takes the file at the path out, and answers whether there was
/// one.
pub open spec fn deletes(
    before: VideoStore,
    path: Seq<char>,
    after: VideoStore,
    status: Status,
) -> bool {
    &&& after.spec_config() == before.spec_config()
    &&& after@ == before@.remove(path)
    &&& status == if before@.contains_key(path) {
        Status::NoContent
    } else {
        Status::NotFound
    }
}

/// Deletes the file at `path` if there is one.
pub fn delete_stream(store: &mut VideoStore, path: &str) -> (status: Status)
    requires
        old(store).wf(),
    ensures
        final(store).wf(),
        deletes(*old(store), path@, *final(store), status),
{
    match store.remove(path) {
        None => Status::NotFound,
        Some(()) => Status::NoContent,
    }
}

/// What `list_streams` answers: all paths for a lone wildcard, in dictionary order; the paths
/// that start with what stands before a wildcard at the end; else the path itself if there is a
/// file at it. Another method than `LIST` and a wildcard before the end are refused.
pub open spec fn lists(
    store: VideoStore,
    method: Seq<char>,
    path: Seq<char>,
    answer: Result<Vec<String>, Status>,
) -> bool {
    match answer {
        Ok(list) => {
            &&& method == "LIST"@
            &&& !has_early_wildcard(path)
            &&& if path == "*"@ {
                lists_in_order(texts(list@), store@.dom())
            } else if has_wildcard(path) {
                lists_prefix_in_order(texts(list@), store@.dom(), path.drop_last())
            } else if store@.contains_key(path) {
                texts(list@) == seq![path]
            } else {
                list@.len() == 0
            }
        },
        Err(status) => if method != "LIST"@ {
            status == Status::MethodNotAllowed
        } else {
            has_early_wildcard(path) && status == Status::BadRequest
        },
    }
}

/// Lists the files at the paths that `path` matches. A wildcard may only be the last character.
pub fn list_streams(store: &VideoStore, method: &str, path: &str) -> (answer: Result<
    Vec<String>,
    Status,
>)
    requires
        store.wf(),
    ensures
        lists(*store, method@, path@, answer),
{
    if method.to_owned() != "LIST".to_owned() {
        return Err(Status::MethodNotAllowed);
    }
    if contains_early_wildcard(path) {
        return Err(Status::BadRequest);
    }
    proof {
        reveal_strlit("*");
        if has_wildcard(path@) {
            let i = path@.index_of('*');
            if i < path@.len() - 1 {
                assert(path@.drop_last()[i] == '*');
            }
            assert(path@.last() == '*');
            if path@.len() == 1 {
                assert(path@ == "*"@);
            }
        } else {
            assert("*"@[0] == '*');
        }
    }
    Ok(store.list(path))
}

} // verus!
