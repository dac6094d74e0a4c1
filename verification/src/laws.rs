//! What holds of the server's answers taken together.

use vstd::prelude::*;

pub mod clients;
pub mod files;
pub mod listings;
pub mod requests;
pub mod uploads;

use crate::blocks::first_pieces_begin_the_whole;
use crate::channel::at_start_of;
use crate::handlers::{deletes, gets, lists, puts, Download};
use crate::paths::{has_early_wildcard, has_wildcard};
use crate::status::Status;
use crate::trie::{ordered_list_is_unique, ordered_prefix_list_is_unique, texts};
use crate::upload::Upload;
use crate::video_store::VideoStore;

verus! {

/// Whether no stored path holds a wildcard.
pub open spec fn is_wildcard_free(store: VideoStore) -> bool {
    forall|path: Seq<char>| #[trigger] store@.contains_key(path) ==> !has_wildcard(path)
}

/// After an upload has begun its file is found at its path, with the declared content type and
/// from the first block on of what the upload sends. What is found at other paths is as before.
pub proof fn upload_is_found(
    before: VideoStore,
    path: Seq<char>,
    content_type: Option<Seq<char>>,
    after: VideoStore,
    upload: Upload,
    other: Seq<char>,
    earlier: Result<Download, Status>,
    answer: Result<Download, Status>,
)
    requires
        puts(before, path, content_type, after, Ok(upload)),
        gets(before, other, earlier),
        gets(after, other, answer),
    ensures
        other == path ==> {
            &&& answer matches Ok(download)
            &&& content_type == Some(download.content_type@)
            &&& at_start_of(download.blocks, upload.channel())
        },
        other != path ==> same_answer(earlier, answer),
{
    if other != path {
        assert(after@.contains_key(other) == before@.contains_key(other));
    }
}

/// Whether two answers are alike: both find nothing, or both find a file of the same content
/// type and the same channel, from its first block on.
pub open spec fn same_answer(
    a: Result<Download, Status>,
    b: Result<Download, Status>,
) -> bool {
    match (a, b) {
        (Ok(a), Ok(b)) => {
            &&& a.status == b.status
            &&& a.content_type@ == b.content_type@
            &&& forall|handle| at_start_of(a.blocks, handle) == at_start_of(b.blocks, handle)
        },
        (Err(a), Err(b)) => a == b,
        _ => false,
    }
}

/// A file can be read again and again: two reads of a path get answers that are alike.
pub proof fn reads_are_alike(
    store: VideoStore,
    path: Seq<char>,
    first: Result<Download, Status>,
    second: Result<Download, Status>,
)
    requires
        gets(store, path, first),
        gets(store, path, second),
    ensures
        same_answer(first, second),
{
}

/// A refused upload is answered as a bad request and changes nothing that can be read.
pub proof fn refused_upload_changes_nothing(
    before: VideoStore,
    path: Seq<char>,
    content_type: Option<Seq<char>>,
    after: VideoStore,
    begun: Result<Upload, Status>,
    other: Seq<char>,
    earlier: Result<Download, Status>,
    answer: Result<Download, Status>,
)
    requires
        puts(before, path, content_type, after, begun),
        has_wildcard(path) || content_type is None,
        gets(before, other, earlier),
        gets(after, other, answer),
    ensures
        begun matches Err(status) && status == Status::BadRequest,
        after@ == before@,
        same_answer(earlier, answer),
{
}

/// An upload to a path that has a file overwrites it: what is read then has the second upload's
/// content type and comes from its channel, and no path is added.
pub proof fn second_upload_overwrites(
    before: VideoStore,
    path: Seq<char>,
    content_type: Option<Seq<char>>,
    between: VideoStore,
    first: Upload,
    other_type: Option<Seq<char>>,
    after: VideoStore,
    second: Upload,
    answer: Result<Download, Status>,
)
    requires
        puts(before, path, content_type, between, Ok(first)),
        puts(between, path, other_type, after, Ok(second)),
        gets(after, path, answer),
    ensures
        after@.dom() == between@.dom(),
        after@ == before@.insert(path, after@[path]),
        answer matches Ok(download) && other_type == Some(
            download.content_type@,
        ) && at_start_of(download.blocks, second.channel()),
{
    assert(after@ == before@.insert(path, after@[path]));
}

/// A deleted file is gone: it is neither read nor deleted again, and no other path is touched.
pub proof fn deleted_file_is_gone(
    before: VideoStore,
    path: Seq<char>,
    between: VideoStore,
    status: Status,
    answer: Result<Download, Status>,
    after: VideoStore,
    again: Status,
    other: Seq<char>,
    earlier: Result<Download, Status>,
    later: Result<Download, Status>,
)
    requires
        deletes(before, path, between, status),
        gets(between, path, answer),
        deletes(between, path, after, again),
        gets(before, other, earlier),
        gets(after, other, later),
    ensures
        answer matches Err(found) && found == Status::NotFound,
        again == Status::NotFound,
        after@ == between@,
        other != path ==> same_answer(earlier, later),
{
    assert(after@ == between@);
    if other != path {
        assert(after@.contains_key(other) == before@.contains_key(other));
    }
}

/// A deletion is answered with success exactly if a read would have found the file.
pub proof fn deletion_agrees_with_reading(
    before: VideoStore,
    path: Seq<char>,
    answer: Result<Download, Status>,
    after: VideoStore,
    status: Status,
)
    requires
        gets(before, path, answer),
        deletes(before, path, after, status),
    ensures
        status == Status::NoContent <==> answer is Ok,
        status == Status::NotFound <==> answer is Err,
{
}

/// Deleting what was uploaded to a free path brings back the files that were there before.
pub proof fn deletion_undoes_upload(
    before: VideoStore,
    path: Seq<char>,
    content_type: Option<Seq<char>>,
    between: VideoStore,
    upload: Upload,
    after: VideoStore,
    status: Status,
)
    requires
        !before@.contains_key(path),
        puts(before, path, content_type, between, Ok(upload)),
        deletes(between, path, after, status),
    ensures
        status == Status::NoContent,
        after@ == before@,
{
    assert(after@ == before@);
}

/// Uploads and deletions never leave a wildcard in a stored path.
pub proof fn paths_stay_wildcard_free(
    before: VideoStore,
    path: Seq<char>,
    content_type: Option<Seq<char>>,
    between: VideoStore,
    begun: Result<Upload, Status>,
    other: Seq<char>,
    after: VideoStore,
    status: Status,
)
    requires
        is_wildcard_free(before),
        puts(before, path, content_type, between, begun),
        deletes(between, other, after, status),
    ensures
        is_wildcard_free(between),
        is_wildcard_free(after),
{
    assert forall|p: Seq<char>| #[trigger] between@.contains_key(p) implies !has_wildcard(p) by {
        if p != path {
            assert(before@.contains_key(p));
        }
    }
    assert forall|p: Seq<char>| #[trigger] after@.contains_key(p) implies !has_wildcard(p) by {
        assert(between@.contains_key(p));
    }
}

/// A listing is answered exactly if the method is `LIST` and no wildcard stands before the end.
pub proof fn listing_is_answered(
    store: VideoStore,
    method: Seq<char>,
    path: Seq<char>,
    answer: Result<Vec<String>, Status>,
)
    requires
        lists(store, method, path, answer),
    ensures
        answer is Ok <==> method == "LIST"@ && !has_early_wildcard(path),
{
}

/// The listing of a prefix with a wildcard behind it holds exactly the paths that start with the
/// prefix and at which a file can be read. With the empty prefix these are all paths.
pub proof fn prefix_listing_agrees_with_reading(
    store: VideoStore,
    prefix: Seq<char>,
    answer: Result<Vec<String>, Status>,
    path: Seq<char>,
    read: Result<Download, Status>,
)
    requires
        !has_wildcard(prefix),
        lists(store, "LIST"@, prefix.push('*'), answer),
        gets(store, path, read),
    ensures
        answer matches Ok(list) && (texts(list@).contains(path) <==> (prefix.is_prefix_of(path)
            && read is Ok)),
{
    reveal_strlit("*");
    let pattern = prefix.push('*');
    assert(pattern.drop_last() == prefix);
    assert(pattern[prefix.len() as int] == '*');
    let list = answer->Ok_0;
    assert(texts(list@).to_set().contains(path) == texts(list@).contains(path));
    if pattern == "*"@ {
        assert(prefix.len() == 0);
        assert(prefix.is_prefix_of(path));
    } else {
        if prefix.len() == 0 {
            assert(pattern == "*"@);
        }
    }
}

/// The listing of a path without a wildcard holds that path if a file can be read there, and
/// nothing otherwise.
pub proof fn exact_listing_agrees_with_reading(
    store: VideoStore,
    path: Seq<char>,
    answer: Result<Vec<String>, Status>,
    read: Result<Download, Status>,
)
    requires
        !has_wildcard(path),
        lists(store, "LIST"@, path, answer),
        gets(store, path, read),
    ensures
        answer matches Ok(list) && texts(list@) == if read is Ok {
            seq![path]
        } else {
            Seq::<Seq<char>>::empty()
        },
{
    reveal_strlit("*");
    assert("*"@[0] == '*');
    if has_early_wildcard(path) {
        let i = path.drop_last().index_of('*');
        assert(path[i] == '*');
    }
}

/// A listing depends on the stored paths alone, and names no path twice.
pub proof fn listing_is_determined(
    store: VideoStore,
    method: Seq<char>,
    path: Seq<char>,
    first: Vec<String>,
    second: Vec<String>,
)
    requires
        lists(store, method, path, Ok(first)),
        lists(store, method, path, Ok(second)),
    ensures
        texts(first@) == texts(second@),
        texts(first@).no_duplicates(),
{
    let set = store@.dom();
    if path == "*"@ {
        ordered_list_is_unique(texts(first@), texts(second@), set);
    } else if has_wildcard(path) {
        ordered_prefix_list_is_unique(texts(first@), texts(second@), set, path.drop_last());
    } else if !store@.contains_key(path) {
        assert(texts(first@) == texts(second@));
    }
}

/// What readers get is what was uploaded. A file that is read at the path of an upload, `later`
/// being any later state of that upload, is taken from the upload's first block on. Whoever has
/// taken the first blocks in the order in which they were sent has the beginning of the uploaded
/// bytes, and whoever has taken all of a finished upload has all of its bytes.
pub proof fn readers_get_what_was_uploaded(
    before: VideoStore,
    path: Seq<char>,
    content_type: Option<Seq<char>>,
    after: VideoStore,
    upload: Upload,
    later: Upload,
    answer: Result<Download, Status>,
    taken: Seq<Seq<u8>>,
)
    requires
        puts(before, path, content_type, after, Ok(upload)),
        later.wf(),
        later.channel() == upload.channel(),
        gets(after, path, answer),
        taken.is_prefix_of(later.sent()),
    ensures
        answer matches Ok(download) && at_start_of(download.blocks, later.channel()),
        taken.flatten().is_prefix_of(later.received().flatten()),
        later.is_finished() && taken.len() == later.sent().len() ==> taken.flatten()
            == later.received().flatten(),
{
    later.sent_is_what_came();
    first_pieces_begin_the_whole(later.sent(), taken.len() as int);
    assert(later.sent().take(taken.len() as int) == taken);
    let whole = later.received().flatten();
    let sent = later.sent().flatten();
    assert(sent == whole.subrange(0, sent.len() as int));
    if later.is_finished() && taken.len() == later.sent().len() {
        assert(taken == later.sent());
    }
}

} // verus!
