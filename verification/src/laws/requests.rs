//! What each request does to the store, and how it is answered.

use async_broadcast::Sender;
use axum::http::{HeaderMap, HeaderValue};
use vstd::prelude::*;

use crate::channel::at_start_of;
use crate::handlers::{
    begin_upload, delete_stream, get_stream, list_streams, put_stream, show_help_page, Download,
};
use crate::headers::{content_type, declared_content_type, first_values, is_visible};
use crate::laws::same_answer;
use crate::status::Status;
use crate::upload::Upload;
use crate::video_store::{FileRef, VideoFile, VideoStore, VideoStoreConfig};

verus! {

/// The code of each status, as sent and as spoken of.
pub proof fn statuses_have_their_codes(status: Status, code: u16)
    requires
        call_ensures(Status::code, (status,), code),
    ensures
        code == status.spec_code(),
        code == match status {
            Status::Success => 200u16,
            Status::Created => 201,
            Status::NoContent => 204,
            Status::BadRequest => 400,
            Status::NotFound => 404,
            Status::MethodNotAllowed => 405,
        },
{
}

/// The home page names the methods.
pub proof fn help_page_is_shown(content: &'static str)
    requires
        call_ensures(show_help_page, (), content),
    ensures
        content@
            == "<h1>RustStreamServer</h1><p>Individual streams (`/{streamName}`) accept methods GET, PUT, DELETE</p><p>To list all streams matching a prefix, use custom HTTP method LIST on (`/{prefix}*`)</p>"@,
{
}

/// The content type of a request is the first value of its `content-type` field, byte for byte,
/// if there is one and each of its bytes is a visible ASCII character, a space or a tab.
pub proof fn content_type_is_the_header_value(
    headers: &HeaderMap<HeaderValue>,
    declared: Option<String>,
)
    requires
        call_ensures(content_type, (headers,), declared),
    ensures
        ({
            let values = first_values(*headers);
            let bytes = values["content-type"@];
            let plain = forall|i: int|
                0 <= i < bytes.len() ==> (32 <= #[trigger] bytes[i] <= 126 || bytes[i] == 9);
            &&& declared is Some <==> (values.contains_key("content-type"@) && plain)
            &&& declared matches Some(text) ==> {
                &&& text@.len() == bytes.len()
                &&& forall|i: int|
                    0 <= i < bytes.len() ==> (#[trigger] text@[i]) as int == bytes[i] as int
                &&& declared_content_type(*headers) == Some(text@)
            }
            &&& declared is None ==> declared_content_type(*headers) is None
        }),
{
    let values = first_values(*headers);
    let bytes = values["content-type"@];
    let visible = |byte: u8| is_visible(byte);
    if values.contains_key("content-type"@) {
        if bytes.all(visible) {
            assert forall|i: int| 0 <= i < bytes.len() implies (32 <= #[trigger] bytes[i] <= 126
                || bytes[i] == 9) by {
                assert(visible(bytes[i]));
            }
        } else {
            let i = choose|i: int| 0 <= i < bytes.len() && !(#[trigger] visible(bytes[i]));
            assert(!(32 <= bytes[i] <= 126 || bytes[i] == 9));
        }
    }
}

/// An upload is accepted exactly if its path holds no `*` and it has a content type, whatever
/// else they are. An accepted upload puts one file at its path; a read of the path is answered
/// with 200, that content type, and the upload's blocks from the first on. What is at other paths
/// is as before. A refused one is answered with 400 and leaves everything as it is.
pub proof fn uploads_are_stored(
    before: VideoStore,
    path: String,
    content_type: Option<String>,
    after: VideoStore,
    begun: Result<Upload, Status>,
    handle: &Sender<Vec<u8>>,
    other: &str,
    earlier: Result<Download, Status>,
    answer: Result<Download, Status>,
)
    requires
        exists|store: &mut VideoStore|
            *store == before && *final(store) == after && #[trigger] call_ensures(
                begin_upload,
                (store, path, content_type),
                begun,
            ),
        begun matches Ok(upload) ==> call_ensures(Upload::handle, (&upload,), handle),
        call_ensures(get_stream, (&before, other), earlier),
        call_ensures(get_stream, (&after, other), answer),
    ensures
        begun is Ok <==> content_type is Some && forall|i: int|
            0 <= i < path@.len() ==> #[trigger] path@[i] != '*',
        begun matches Err(status) ==> status.spec_code() == 400 && after@ == before@,
        begun is Ok ==> {
            &&& after@.dom() == before@.dom().insert(path@)
            &&& forall|q: Seq<char>| q != path@ ==> #[trigger] after@[q] == before@[q]
        },
        begun is Ok && other@ == path@ ==> {
            &&& answer matches Ok(download)
            &&& download.status.spec_code() == 200
            &&& download.content_type@ == content_type->0@
            &&& at_start_of(download.blocks, *handle)
        },
        begun is Err || other@ != path@ ==> same_answer(earlier, answer),
{
    lemma_star(path@);
    if begun is Ok {
        assert(after@.dom() == before@.dom().insert(path@));
        if other@ != path@ {
            assert(after@.contains_key(other@) == before@.contains_key(other@));
        }
    }
}

/// The same of an upload whose content type is declared by headers: it is the first value of
/// their `content-type` field, byte for byte.
pub proof fn uploads_with_headers_are_stored(
    before: VideoStore,
    path: String,
    headers: &HeaderMap<HeaderValue>,
    after: VideoStore,
    begun: Result<Upload, Status>,
    handle: &Sender<Vec<u8>>,
    other: &str,
    earlier: Result<Download, Status>,
    answer: Result<Download, Status>,
)
    requires
        exists|store: &mut VideoStore|
            *store == before && *final(store) == after && #[trigger] call_ensures(
                put_stream,
                (store, path, headers),
                begun,
            ),
        begun matches Ok(upload) ==> call_ensures(Upload::handle, (&upload,), handle),
        call_ensures(get_stream, (&before, other), earlier),
        call_ensures(get_stream, (&after, other), answer),
    ensures
        ({
            let values = first_values(*headers);
            let bytes = values["content-type"@];
            &&& begun is Ok <==> {
                &&& values.contains_key("content-type"@)
                &&& forall|i: int|
                    0 <= i < bytes.len() ==> (32 <= #[trigger] bytes[i] <= 126 || bytes[i] == 9)
                &&& forall|i: int| 0 <= i < path@.len() ==> #[trigger] path@[i] != '*'
            }
            &&& begun is Ok && other@ == path@ ==> {
                &&& answer matches Ok(download)
                &&& download.status.spec_code() == 200
                &&& download.content_type@.len() == bytes.len()
                &&& forall|i: int|
                    0 <= i < bytes.len() ==> (#[trigger] download.content_type@[i]) as int
                        == bytes[i] as int
                &&& at_start_of(download.blocks, *handle)
            }
        }),
        begun matches Err(status) ==> status.spec_code() == 400 && after@ == before@,
        begun is Ok ==> {
            &&& after@.dom() == before@.dom().insert(path@)
            &&& forall|q: Seq<char>| q != path@ ==> #[trigger] after@[q] == before@[q]
        },
        begun is Err || other@ != path@ ==> same_answer(earlier, answer),
{
    lemma_star(path@);
    let bytes = first_values(*headers)["content-type"@];
    let visible = |byte: u8| is_visible(byte);
    if bytes.all(visible) {
        assert forall|i: int| 0 <= i < bytes.len() implies (32 <= #[trigger] bytes[i] <= 126
            || bytes[i] == 9) by {
            assert(visible(bytes[i]));
        }
    } else {
        let i = choose|i: int| 0 <= i < bytes.len() && !(#[trigger] visible(bytes[i]));
        assert(!(32 <= bytes[i] <= 126 || bytes[i] == 9));
    }
    if begun is Ok {
        assert(after@.dom() == before@.dom().insert(path@));
        if other@ != path@ {
            assert(after@.contains_key(other@) == before@.contains_key(other@));
        }
    }
}

/// A path holds a wildcard exactly if one of its characters is `*`.
proof fn lemma_star(path: Seq<char>)
    ensures
        crate::paths::has_wildcard(path) <==> !(forall|i: int|
            0 <= i < path.len() ==> #[trigger] path[i] != '*'),
{
    if crate::paths::has_wildcard(path) {
        let i = path.index_of('*');
        assert(path[i] == '*');
    }
}

/// A read is answered with 200 if there is a file, whatever its type and path, and with 404
/// otherwise. It gives the file's own content type, and the file's blocks just as the file gives
/// them.
pub proof fn reads_are_answered(
    store: &VideoStore,
    path: &str,
    answer: Result<Download, Status>,
    found: Option<FileRef>,
    kept_type: &str,
    stream: async_broadcast::Receiver<Vec<u8>>,
    handle: Sender<Vec<u8>>,
)
    requires
        call_ensures(get_stream, (store, path), answer),
        call_ensures(VideoStore::get, (store, path), found),
        found matches Some(file) ==> call_ensures(VideoFile::content_type, (&*file,), kept_type)
            && call_ensures(VideoFile::data_stream, (&*file,), stream),
    ensures
        answer is Ok <==> store@.contains_key(path@),
        answer is Ok <==> found is Some,
        answer matches Ok(download) ==> {
            &&& download.status.spec_code() == 200
            &&& download.content_type@ == kept_type@
            &&& at_start_of(download.blocks, handle) == at_start_of(stream, handle)
        },
        answer matches Err(status) ==> status.spec_code() == 404,
{
}

/// A deletion is answered with 204 if the file could be read before, and with 404 otherwise.
/// Afterwards the file is not found; what is at other paths is as before.
pub proof fn deletions_take_one_file(
    before: VideoStore,
    path: &str,
    after: VideoStore,
    status: Status,
    was: Result<Download, Status>,
    is: Result<Download, Status>,
    other: &str,
    earlier: Result<Download, Status>,
    answer: Result<Download, Status>,
)
    requires
        exists|store: &mut VideoStore|
            *store == before && *final(store) == after && #[trigger] call_ensures(
                delete_stream,
                (store, path),
                status,
            ),
        call_ensures(get_stream, (&before, path), was),
        call_ensures(get_stream, (&after, path), is),
        call_ensures(get_stream, (&before, other), earlier),
        call_ensures(get_stream, (&after, other), answer),
    ensures
        status.spec_code() == if was is Ok {
            204
        } else {
            404u16
        },
        is matches Err(gone) && gone.spec_code() == 404,
        after@.dom() == before@.dom().remove(path@),
        forall|q: Seq<char>| q != path@ && before@.contains_key(q) ==> #[trigger] after@[q] == before@[q],
        other@ != path@ ==> same_answer(earlier, answer),
{
    assert(after@.dom() == before@.dom().remove(path@));
    if other@ != path@ {
        assert(after@.contains_key(other@) == before@.contains_key(other@));
    }
}

/// A new store has no file at any path, and the configuration that it was given.
pub proof fn new_store_is_empty(
    config: VideoStoreConfig,
    store: VideoStore,
    kept: &VideoStoreConfig,
    path: &str,
    answer: Result<Download, Status>,
    listed: Result<Vec<String>, Status>,
)
    requires
        call_ensures(VideoStore::new, (config,), store),
        call_ensures(VideoStore::config, (&store,), kept),
        call_ensures(get_stream, (&store, path), answer),
        call_ensures(list_streams, (&store, "LIST", "*"), listed),
    ensures
        kept.file_allocated_blocks_no == config.file_allocated_blocks_no,
        kept.file_preferred_block_size == config.file_preferred_block_size,
        answer matches Err(status) && status.spec_code() == 404,
        listed matches Ok(list) && list@.len() == 0,
{
    reveal_strlit("*");
    assert("*"@.drop_last().len() == 0);
    let list = listed->Ok_0;
    if list@.len() > 0 {
        assert(crate::trie::texts(list@)[0] == list@[0]@);
        assert(crate::trie::texts(list@).to_set().contains(list@[0]@));
    }
}

/// No request changes the configuration.
pub proof fn configuration_stays(
    before: VideoStore,
    after: VideoStore,
    path: String,
    content_type: Option<String>,
    headers: &HeaderMap<HeaderValue>,
    begun: Result<Upload, Status>,
    name: &str,
    status: Status,
    earlier: &VideoStoreConfig,
    later: &VideoStoreConfig,
)
    requires
        (exists|store: &mut VideoStore|
            *store == before && *final(store) == after && #[trigger] call_ensures(
                begin_upload,
                (store, path, content_type),
                begun,
            )) || (exists|store: &mut VideoStore|
            *store == before && *final(store) == after && #[trigger] call_ensures(
                put_stream,
                (store, path, headers),
                begun,
            )) || (exists|store: &mut VideoStore|
            *store == before && *final(store) == after && #[trigger] call_ensures(
                delete_stream,
                (store, name),
                status,
            )),
        call_ensures(VideoStore::config, (&before,), earlier),
        call_ensures(VideoStore::config, (&after,), later),
    ensures
        later.file_allocated_blocks_no == earlier.file_allocated_blocks_no,
        later.file_preferred_block_size == earlier.file_preferred_block_size,
{
}

/// Any request can be made of a new store, and of the store that a request leaves behind. Only an
/// upload asks for more: where it is not refused it needs a path of at least one character and a
/// configuration with which files can be made.
pub proof fn requests_can_be_made(
    config: VideoStoreConfig,
    before: VideoStore,
    after: VideoStore,
    path: String,
    content_type: Option<String>,
    headers: &HeaderMap<HeaderValue>,
    begun: Result<Upload, Status>,
    name: &str,
    status: Status,
    method: &str,
    kept: &VideoStoreConfig,
    usable: bool,
)
    requires
        call_ensures(VideoStore::new, (config,), after) || (exists|store: &mut VideoStore|
            *store == before && *final(store) == after && #[trigger] call_ensures(
                begin_upload,
                (store, path, content_type),
                begun,
            )) || (exists|store: &mut VideoStore|
            *store == before && *final(store) == after && #[trigger] call_ensures(
                put_stream,
                (store, path, headers),
                begun,
            )) || (exists|store: &mut VideoStore|
            *store == before && *final(store) == after && #[trigger] call_ensures(
                delete_stream,
                (store, name),
                status,
            )),
        call_ensures(VideoStore::config, (&after,), kept),
        call_ensures(VideoStoreConfig::is_usable, (kept,), usable),
    ensures
        call_requires(get_stream, (&after, name)),
        call_requires(list_streams, (&after, method, name)),
        forall|store: &mut VideoStore|
            *store == after ==> #[trigger] call_requires(delete_stream, (store, name)),
        forall|store: &mut VideoStore, p: String, c: Option<String>|
            *store == after && ((usable && p@.len() > 0) || c is None || p@.contains('*'))
                ==> #[trigger] call_requires(begin_upload, (store, p, c)),
        forall|store: &mut VideoStore, p: String, h: &HeaderMap<HeaderValue>|
            *store == after && ((usable && p@.len() > 0) || p@.contains('*'))
                ==> #[trigger] call_requires(put_stream, (store, p, h)),
{
}

/// What only tells something asks for nothing: it can be called on any store, file, upload,
/// configuration, headers or status.
pub proof fn questions_can_be_asked(
    config: VideoStoreConfig,
    store: VideoStore,
    path: &str,
    file: VideoFile,
    upload: Upload,
    headers: &HeaderMap<HeaderValue>,
    status: Status,
)
    ensures
        call_requires(VideoStore::new, (config,)),
        call_requires(VideoStoreConfig::is_usable, (&config,)),
        call_requires(VideoStore::config, (&store,)),
        call_requires(VideoStore::get, (&store, path)),
        call_requires(VideoFile::content_type, (&file,)),
        call_requires(VideoFile::data_stream, (&file,)),
        call_requires(Upload::handle, (&upload,)),
        call_requires(Upload::pending_len, (&upload,)),
        call_requires(get_stream, (&store, path)),
        call_requires(content_type, (headers,)),
        call_requires(Status::code, (status,)),
        call_requires(show_help_page, ()),
{
}

} // verus!
