//! What the files and the store do, apart from requests.

use async_broadcast::{Receiver, Sender};
use vstd::prelude::*;

use crate::channel::{at_start_of, block_limit};
use crate::video_store::{FileRef, VideoFile, VideoStore, VideoStoreConfig};

verus! {

/// Whether `count` slots of four words each fit into one allocation.
pub open spec fn slots_fit(count: int) -> bool {
    if usize::BITS == 64 {
        count * 32 <= isize::MAX
    } else {
        count * 16 <= isize::MAX
    }
}

/// A new file has the content type it was given, whatever it is, and room for as many blocks as
/// asked for. Each of its streams starts with the first block that the handle sends. It can be
/// made for any number of blocks but zero that an allocation can hold.
pub proof fn new_file_is_what_its_handle_writes(
    content_type: String,
    file_blocks_no: usize,
    created: (Sender<Vec<u8>>, FileRef),
    text: &str,
    stream: Receiver<Vec<u8>>,
)
    requires
        call_ensures(VideoFile::new_with_handle, (content_type, file_blocks_no), created),
        call_ensures(VideoFile::content_type, (&*created.1,), text),
        call_ensures(VideoFile::data_stream, (&*created.1,), stream),
    ensures
        text@ == content_type@,
        at_start_of(stream, created.0),
        block_limit(created.0) == file_blocks_no,
        0 < file_blocks_no && slots_fit(file_blocks_no as int) ==> call_requires(
            VideoFile::new_with_handle,
            (content_type, file_blocks_no),
        ),
{
}

/// All streams of a file start at the same place.
pub proof fn streams_start_alike(
    file: &VideoFile,
    first: Receiver<Vec<u8>>,
    second: Receiver<Vec<u8>>,
    handle: Sender<Vec<u8>>,
)
    requires
        call_ensures(VideoFile::data_stream, (file,), first),
        call_ensures(VideoFile::data_stream, (file,), second),
    ensures
        at_start_of(first, handle) == at_start_of(second, handle),
{
}

/// A configuration is usable exactly if files need at least one block, all their blocks have
/// slots in one allocation, and so has one block of the preferred size.
pub proof fn usable_configurations(config: &VideoStoreConfig, usable: bool)
    requires
        call_ensures(VideoStoreConfig::is_usable, (config,), usable),
    ensures
        usable == {
            &&& 0 < config.file_allocated_blocks_no
            &&& slots_fit(config.file_allocated_blocks_no as int)
            &&& config.file_preferred_block_size <= isize::MAX
        },
        usable == config.usable(),
{
}

/// A created file is found at its path with its content type, is written by the returned handle
/// from its first block on, and has room for the configured number of blocks. What is found at
/// other paths, and the configuration, stay as they are.
pub proof fn created_file_is_found(
    before: VideoStore,
    path: String,
    content_type: String,
    after: VideoStore,
    handle: Sender<Vec<u8>>,
    other: &str,
    earlier: Option<FileRef>,
    later: Option<FileRef>,
    text: &str,
    stream: Receiver<Vec<u8>>,
    config: &VideoStoreConfig,
    kept: &VideoStoreConfig,
)
    requires
        exists|store: &mut VideoStore|
            *store == before && *final(store) == after && #[trigger] call_ensures(
                VideoStore::create,
                (store, path, content_type),
                handle,
            ),
        call_ensures(VideoStore::get, (&before, other), earlier),
        call_ensures(VideoStore::get, (&after, other), later),
        later matches Some(file) ==> call_ensures(VideoFile::content_type, (&*file,), text)
            && call_ensures(VideoFile::data_stream, (&*file,), stream),
        call_ensures(VideoStore::config, (&before,), config),
        call_ensures(VideoStore::config, (&after,), kept),
    ensures
        other@ == path@ ==> later is Some && text@ == content_type@ && at_start_of(stream, handle),
        other@ != path@ ==> later == earlier,
        block_limit(handle) == config.file_allocated_blocks_no,
        *kept == *config,
        after.wf(),
        after@.dom() == before@.dom().insert(path@),
        before.wf() && config.usable() && path@.len() > 0 ==> forall|store: &mut VideoStore|
            *store == before ==> #[trigger] call_requires(
                VideoStore::create,
                (store, path, content_type),
            ),
{
    assert(after@.dom() == before@.dom().insert(path@));
    if other@ != path@ {
        assert(after@.contains_key(other@) == before@.contains_key(other@));
        assert(after@[other@] == before@.insert(path@, after@[path@])[other@]);
    }
}

/// A removal tells whether there was a file, and takes it away. What is found at other paths, and
/// the configuration, stay as they are.
pub proof fn removed_file_is_not_found(
    before: VideoStore,
    path: &str,
    after: VideoStore,
    removed: Option<()>,
    was: Option<FileRef>,
    other: &str,
    earlier: Option<FileRef>,
    later: Option<FileRef>,
    config: &VideoStoreConfig,
    kept: &VideoStoreConfig,
)
    requires
        exists|store: &mut VideoStore|
            *store == before && *final(store) == after && #[trigger] call_ensures(
                VideoStore::remove,
                (store, path),
                removed,
            ),
        call_ensures(VideoStore::get, (&before, path), was),
        call_ensures(VideoStore::get, (&before, other), earlier),
        call_ensures(VideoStore::get, (&after, other), later),
        call_ensures(VideoStore::config, (&before,), config),
        call_ensures(VideoStore::config, (&after,), kept),
    ensures
        removed is Some <==> was is Some,
        other@ == path@ ==> later is None,
        other@ != path@ ==> later == earlier,
        *kept == *config,
        after.wf(),
        after@.dom() == before@.dom().remove(path@),
        before.wf() ==> forall|store: &mut VideoStore|
            *store == before ==> #[trigger] call_requires(VideoStore::remove, (store, path)),
{
    assert(after@.dom() == before@.dom().remove(path@));
    if other@ != path@ {
        assert(after@.contains_key(other@) == before@.contains_key(other@));
    }
}

/// A new store has the configuration it was given, and no file is found in it.
pub proof fn nothing_is_found_in_a_new_store(
    config: VideoStoreConfig,
    store: VideoStore,
    kept: &VideoStoreConfig,
    path: &str,
    found: Option<FileRef>,
)
    requires
        call_ensures(VideoStore::new, (config,), store),
        call_ensures(VideoStore::config, (&store,), kept),
        call_ensures(VideoStore::get, (&store, path), found),
    ensures
        store.wf(),
        *kept == config,
        found is None,
        store@.dom() == Set::<Seq<char>>::empty(),
{
    assert(store@.dom() == Set::<Seq<char>>::empty());
}

} // verus!
