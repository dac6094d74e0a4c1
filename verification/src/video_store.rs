//! The stored files: creation, lookup, removal and search, and the configuration.

use std::sync::Arc;

use async_broadcast::{Receiver, Sender};
use tst::TSTSet;
use vstd::hash_map::StringHashMap;
use vstd::prelude::*;
use vstd::string::StrSliceExecFns;

use crate::channel::{at_start_of, block_limit, max_block_limit, open_channel, same_position};
use crate::paths::{contains_wildcard, has_wildcard};
use crate::trie::{
    all_texts, lists_in_order, lists_prefix_in_order, texts, texts_in, texts_with_prefix,
};

verus! {

/// A stored file: its content type and the channel that its blocks come through.
pub struct VideoFile {
    /// MIME content type of the file, as received in the "Content-Type" header.
    content_type: String,
    /// Receiver that stands at the beginning of the file.
    receiver: Receiver<Vec<u8>>,
}

/// A shared reference to a stored file.
pub type FileRef = Arc<VideoFile>;

impl VideoFile {
    /// The content type of the file.
    pub closed spec fn content_type_text(&self) -> Seq<char> {
        self.content_type@
    }

    /// Whether the file is what `handle` writes, from the first block on.
    pub closed spec fn is_written_by(&self, handle: Sender<Vec<u8>>) -> bool {
        at_start_of(self.receiver, handle)
    }

    /// Creates a file that holds up to `file_blocks_no` blocks, with the handle that writes it.
    pub fn new_with_handle(content_type: String, file_blocks_no: usize) -> (created: (
        Sender<Vec<u8>>,
        FileRef,
    ))
        requires
            0 < file_blocks_no <= max_block_limit(),
        ensures
            created.1.content_type_text() == content_type@,
            created.1.is_written_by(created.0),
            block_limit(created.0) == file_blocks_no,
    {
        let (sender, receiver) = open_channel(file_blocks_no);
        (sender, Arc::new(VideoFile { content_type, receiver }))
    }

    /// The content type of the file.
    pub fn content_type(&self) -> (content_type: &str)
        ensures
            content_type@ == self.content_type_text(),
    {
        self.content_type.as_str()
    }

    /// A receiver of the whole file, from its first block on.
    pub fn data_stream(&self) -> (stream: Receiver<Vec<u8>>)
        ensures
            forall|handle: Sender<Vec<u8>>|
                #[trigger] at_start_of(stream, handle) == self.is_written_by(handle),
    {
        same_position(&self.receiver)
    }
}

/// Calls `clone` of `std::sync::Arc`, which makes another reference to the same file.
///
/// Believed: the two references are to one and the same file.
#[verifier::external_body]
fn share(file: &FileRef) -> (shared: FileRef)
    ensures
        shared == *file,
{
    Arc::clone(file)
}

/// The server configuration.
pub struct VideoStoreConfig {
    /// Number of blocks that should be allocated in a file.
    pub file_allocated_blocks_no: usize,
    /// Preferred size of a block
    /// (in reality blocks will resize to fit chunks completely).
    pub file_preferred_block_size: usize,
}

/// The configuration under its short name.
pub type Config = VideoStoreConfig;

impl VideoStoreConfig {
    /// Whether files can be made with this configuration: a channel for as many blocks can be
    /// made, and a block of the preferred size can be allocated.
    pub open spec fn usable(&self) -> bool {
        &&& 0 < self.file_allocated_blocks_no <= max_block_limit()
        &&& self.file_preferred_block_size <= isize::MAX
    }

    /// Tells whether files can be made with this configuration.
    pub fn is_usable(&self) -> (usable: bool)
        ensures
            usable == self.usable(),
    {
        let most: usize = if usize::BITS == 64 {
            isize::MAX as usize / 32
        } else {
            isize::MAX as usize / 16
        };
        0 < self.file_allocated_blocks_no && self.file_allocated_blocks_no <= most
            && self.file_preferred_block_size <= isize::MAX as usize
    }
}

/// The stored files by their paths, with a trie of the paths for search by prefix.
pub struct VideoStore {
    /// The configuration.
    config: VideoStoreConfig,
    /// The files.
    data_storage: StringHashMap<FileRef>,
    /// The paths of the files.
    available_paths: TSTSet,
}

impl View for VideoStore {
    type V = Map<Seq<char>, FileRef>;

    /// The files by their paths.
    closed spec fn view(&self) -> Map<Seq<char>, FileRef> {
        self.data_storage@
    }
}

impl VideoStore {
    /// The configuration.
    pub closed spec fn spec_config(&self) -> VideoStoreConfig {
        self.config
    }

    /// The trie holds the paths of the files and nothing else.
    pub closed spec fn wf(&self) -> bool {
        texts_in(self.available_paths) == self.data_storage@.dom()
    }

    /// Creates a store without files.
    pub fn new(config: VideoStoreConfig) -> (store: Self)
        ensures
            store.wf(),
            store@ == Map::<Seq<char>, FileRef>::empty(),
            store.spec_config() == config,
    {
        VideoStore { config, data_storage: StringHashMap::new(), available_paths: TSTSet::new() }
    }

    /// The configuration.
    pub fn config(&self) -> (config: &VideoStoreConfig)
        ensures
            *config == self.spec_config(),
    {
        &self.config
    }

    /// Puts a new file with the given content type at `path`, in place of any that is there, and
    /// returns the handle for writing it.
    pub fn create(&mut self, path: String, content_type: String) -> (handle: Sender<Vec<u8>>)
        requires
            old(self).wf(),
            old(self).spec_config().usable(),
            path@.len() > 0,
        ensures
            final(self).wf(),
            final(self).spec_config() == old(self).spec_config(),
            final(self)@.contains_key(path@),
            final(self)@ == old(self)@.insert(path@, final(self)@[path@]),
            final(self)@[path@].content_type_text() == content_type@,
            final(self)@[path@].is_written_by(handle),
            block_limit(handle) == old(self).spec_config().file_allocated_blocks_no,
    {
        let (handle, file) = VideoFile::new_with_handle(
            content_type,
            self.config.file_allocated_blocks_no,
        );
        self.available_paths.insert(path.as_str());
        self.data_storage.insert(path, file);
        handle
    }

    /// The file at `path`, if there is one.
    pub fn get(&self, path: &str) -> (found: Option<FileRef>)
        ensures
            match found {
                Some(file) => self@.contains_key(path@) && file == self@[path@],
                None => !self@.contains_key(path@),
            },
    {
        match self.data_storage.get(path) {
            Some(file) => Some(share(file)),
            None => None,
        }
    }

    /// Removes the file at `path` and tells whether there was one.
    pub fn remove(&mut self, path: &str) -> (removed: Option<()>)
        requires
            old(self).wf(),
        ensures
            final(self).wf(),
            final(self).spec_config() == old(self).spec_config(),
            final(self)@ == old(self)@.remove(path@),
            removed is Some <==> old(self)@.contains_key(path@),
    {
        self.available_paths.remove(path);
        let present: bool = self.data_storage.contains_key(path);
        self.data_storage.remove(path);
        if present {
            Some(())
        } else {
            None
        }
    }

    /// Lists the paths of stored files.
    ///
    /// A lone wildcard lists all of them in dictionary order. Any other path that holds a
    /// wildcard lists those that start with it, less its last character. A path without a
    /// wildcard lists itself if there is a file at it.
    pub fn list(&self, path: &str) -> (list: Vec<String>)
        requires
            self.wf(),
            has_wildcard(path@) ==> (path@.last() as u32) < 128,
        ensures
            if has_wildcard(path@) {
                if path@.len() == 1 {
                    lists_in_order(texts(list@), self@.dom())
                } else {
                    lists_prefix_in_order(texts(list@), self@.dom(), path@.drop_last())
                }
            } else if self@.contains_key(path@) {
                texts(list@) == seq![path@]
            } else {
                list@.len() == 0
            },
    {
        if contains_wildcard(path) {
            let len: usize = path.unicode_len();
            if len == 1 {
                all_texts(&self.available_paths)
            } else {
                let prefix = path.substring_char(0, len - 1);
                assert(prefix@ == path@.drop_last());
                texts_with_prefix(&self.available_paths, prefix)
            }
        } else if self.data_storage.contains_key(path) {
            let list: Vec<String> = vec![path.to_owned()];
            assert(texts(list@) == seq![path@]);
            list
        } else {
            Vec::new()
        }
    }
}

} // verus!
