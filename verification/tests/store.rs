use axum::http::{header, HeaderMap, HeaderValue};
use futures::executor::block_on;
use futures::stream::StreamExt;

use stream_server::headers::content_type;
use stream_server::paths::{contains_early_wildcard, contains_wildcard};
use stream_server::upload::{Action, BodyEvent, Upload};
use stream_server::video_store::{Config, VideoFile, VideoStore, VideoStoreConfig};

fn store_of(paths: &[&str]) -> VideoStore {
    let mut store = VideoStore::new(Config {
        file_allocated_blocks_no: 4,
        file_preferred_block_size: 8,
    });
    for path in paths {
        store.create(path.to_string(), "text/plain".to_string());
    }
    store
}

#[test]
fn file_has_its_type_and_limit() {
    let (handle, file) = VideoFile::new_with_handle("video/mp4".to_string(), 3);
    assert_eq!(file.content_type(), "video/mp4");
    assert_eq!(handle.capacity(), 3);
    for block in [b"a", b"b", b"c"] {
        assert!(handle.try_broadcast(block.to_vec()).is_ok());
    }
    assert!(handle.try_broadcast(b"d".to_vec()).is_err());
}

#[test]
fn every_stream_starts_at_the_first_block() {
    let (handle, file) = VideoFile::new_with_handle("video/mp4".to_string(), 3);
    handle.try_broadcast(b"a".to_vec()).unwrap();
    let mut early = file.data_stream();
    assert_eq!(block_on(early.next()), Some(b"a".to_vec()));
    handle.try_broadcast(b"b".to_vec()).unwrap();
    handle.close();
    let late: Vec<Vec<u8>> = block_on(file.data_stream().collect());
    assert_eq!(late, vec![b"a".to_vec(), b"b".to_vec()]);
    let rest: Vec<Vec<u8>> = block_on(early.collect());
    assert_eq!(rest, vec![b"b".to_vec()]);
}

#[test]
fn create_uses_the_configured_limit() {
    let mut store = store_of(&[]);
    let handle = store.create("p".to_string(), "text/plain".to_string());
    assert_eq!(handle.capacity(), 4);
    assert_eq!(store.config().file_allocated_blocks_no, 4);
    assert_eq!(store.config().file_preferred_block_size, 8);
}

#[test]
fn handle_writes_the_file_at_its_path() {
    let mut store = store_of(&["other"]);
    let handle = store.create("p".to_string(), "text/plain".to_string());
    handle.try_broadcast(b"x".to_vec()).unwrap();
    handle.close();
    let blocks: Vec<Vec<u8>> = block_on(store.get("p").unwrap().data_stream().collect());
    assert_eq!(blocks, vec![b"x".to_vec()]);
}

#[test]
fn configuration_limits() {
    assert!(VideoStoreConfig { file_allocated_blocks_no: 0x100_000, file_preferred_block_size: 0x100_000 }
        .is_usable());
    assert!(VideoStoreConfig { file_allocated_blocks_no: 1, file_preferred_block_size: 0 }.is_usable());
    assert!(!VideoStoreConfig { file_allocated_blocks_no: 0, file_preferred_block_size: 1 }.is_usable());
    assert!(!VideoStoreConfig { file_allocated_blocks_no: usize::MAX, file_preferred_block_size: 1 }
        .is_usable());
    assert!(!VideoStoreConfig { file_allocated_blocks_no: 1, file_preferred_block_size: usize::MAX }
        .is_usable());
}

#[test]
fn remove_tells_whether_there_was_a_file() {
    let mut store = store_of(&["a", "ab"]);
    assert_eq!(store.remove("a"), Some(()));
    assert_eq!(store.remove("a"), None);
    assert_eq!(store.remove(""), None);
    assert!(store.get("a").is_none());
    assert!(store.get("ab").is_some());
    assert_eq!(store.list("*"), vec!["ab"]);
}

#[test]
fn all_paths_come_in_dictionary_order() {
    let store = store_of(&["b", "ab", "a", "\u{e9}", "abc", "Z", "a"]);
    assert_eq!(store.list("*"), vec!["Z", "a", "ab", "abc", "b", "\u{e9}"]);
}

#[test]
fn prefix_itself_comes_last() {
    let store = store_of(&["ab", "abd", "abc", "a", "ac", "abcx"]);
    assert_eq!(store.list("ab*"), vec!["abc", "abcx", "abd", "ab"]);
    assert_eq!(store.list("abx*"), Vec::<String>::new());
}

#[test]
fn early_wildcard_is_part_of_the_prefix() {
    let store = store_of(&["a*c", "abc", "a*"]);
    assert_eq!(store.list("a*c"), vec!["a*c", "a*"]);
}

#[test]
fn exact_path_lists_itself() {
    let store = store_of(&["a", "ab"]);
    assert_eq!(store.list("a"), vec!["a"]);
    assert_eq!(store.list("b"), Vec::<String>::new());
    assert_eq!(store.list(""), Vec::<String>::new());
}

#[test]
fn wildcards_in_paths() {
    assert!(!contains_wildcard(""));
    assert!(!contains_wildcard("path"));
    assert!(contains_wildcard("*"));
    assert!(contains_wildcard("a*b"));
    assert!(!contains_early_wildcard(""));
    assert!(!contains_early_wildcard("*"));
    assert!(!contains_early_wildcard("a*"));
    assert!(contains_early_wildcard("a*b"));
    assert!(contains_early_wildcard("**"));
    assert!(contains_early_wildcard("*\u{e9}"));
}

#[test]
fn content_type_is_the_first_plain_value() {
    let mut headers = HeaderMap::new();
    assert_eq!(content_type(&headers), None);
    headers.insert(header::HOST, HeaderValue::from_static("localhost"));
    assert_eq!(content_type(&headers), None);
    headers.append(header::CONTENT_TYPE, HeaderValue::from_static("text/plain; a=\tb"));
    headers.append(header::CONTENT_TYPE, HeaderValue::from_static("video/mp4"));
    assert_eq!(content_type(&headers), Some("text/plain; a=\tb".to_string()));
    headers.insert(header::CONTENT_TYPE, HeaderValue::from_bytes(b"text/\xfa").unwrap());
    assert_eq!(content_type(&headers), None);
    headers.insert(header::CONTENT_TYPE, HeaderValue::from_static(""));
    assert_eq!(content_type(&headers), Some("".to_string()));
}

/// The blocks that an upload of `chunks` sends.
fn blocks_sent(preferred: usize, chunks: &[&[u8]]) -> Vec<Vec<u8>> {
    let (handle, _file) = VideoFile::new_with_handle("text/plain".to_string(), 1);
    let mut upload = Upload::new(handle, preferred);
    let mut blocks = Vec::new();
    for chunk in chunks {
        match upload.step(BodyEvent::Chunk(chunk)) {
            Action::ReadOn => {},
            Action::Broadcast(block) => blocks.push(block),
            Action::Finish { .. } => unreachable!(),
        }
    }
    match upload.step(BodyEvent::Ended) {
        Action::Finish { last, .. } => blocks.extend(last),
        _ => unreachable!(),
    }
    blocks
}

#[test]
fn blocks_are_runs_of_whole_chunks() {
    let chunks: [&[u8]; 5] = [b"ab", b"c", b"defgh", b"i", b"j"];
    assert_eq!(blocks_sent(4, &chunks), vec![b"abcdefgh".to_vec(), b"ij".to_vec()]);
    assert_eq!(blocks_sent(3, &chunks), vec![b"abc".to_vec(), b"defgh".to_vec(), b"ij".to_vec()]);
    assert_eq!(blocks_sent(100, &chunks), vec![b"abcdefghij".to_vec()]);
}

#[test]
fn blocks_without_a_preferred_size() {
    let chunks: [&[u8]; 3] = [b"ab", b"", b"c"];
    assert_eq!(blocks_sent(0, &chunks), vec![b"ab".to_vec(), b"".to_vec(), b"c".to_vec()]);
    assert_eq!(blocks_sent(1, &chunks), vec![b"ab".to_vec(), b"c".to_vec()]);
}

#[test]
fn empty_upload_sends_nothing() {
    assert_eq!(blocks_sent(8, &[]), Vec::<Vec<u8>>::new());
    assert_eq!(blocks_sent(8, &[b"", b""]), Vec::<Vec<u8>>::new());
}
