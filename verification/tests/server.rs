use std::collections::HashSet;

use axum::http::{header, HeaderMap};
use futures::channel::oneshot;
use futures::executor::block_on;
use futures::stream::StreamExt;

use stream_server::handlers::{
    begin_upload, delete_stream, get_stream, list_streams, put_stream, show_help_page, Download,
};
use stream_server::status::Status;
use stream_server::upload::{Action, BodyEvent, Upload};
use stream_server::video_store::{Config, VideoStore};

const TEXT: &str = "The quick brown fox jumps over the lazy dog";

fn new_store() -> VideoStore {
    VideoStore::new(Config {
        file_allocated_blocks_no: 0x10,
        file_preferred_block_size: 0x10,
    })
}

fn plain_text() -> HeaderMap {
    let mut headers = HeaderMap::new();
    headers.insert(header::CONTENT_TYPE, "text/plain".parse().unwrap());
    headers
}

fn words() -> Vec<Vec<u8>> {
    TEXT.split(" ").map(|e| e.to_string().into_bytes()).collect()
}

fn joined() -> String {
    TEXT.replace(" ", "")
}

/// Carries out one step of an upload; the status comes with its end.
async fn carry_out(upload: &mut Upload, event: BodyEvent<'_>) -> Option<Status> {
    match upload.step(event) {
        Action::ReadOn => None,
        Action::Broadcast(block) => {
            upload.handle().broadcast(block).await.unwrap();
            None
        },
        Action::Finish { last, status } => {
            if let Some(block) = last {
                upload.handle().broadcast(block).await.unwrap();
            }
            upload.handle().close();
            Some(status)
        },
    }
}

fn upload_all(mut upload: Upload, chunks: &[Vec<u8>]) -> Status {
    block_on(async {
        for chunk in chunks {
            assert!(carry_out(&mut upload, BodyEvent::Chunk(chunk)).await.is_none());
        }
        carry_out(&mut upload, BodyEvent::Ended).await.unwrap()
    })
}

fn read_all(download: Download) -> String {
    let blocks: Vec<Vec<u8>> = block_on(download.blocks.collect());
    String::from_utf8(blocks.concat()).unwrap()
}

fn fill(store: &mut VideoStore) -> Vec<async_broadcast::Sender<Vec<u8>>> {
    let file1 = store.create("a_path".to_string(), "text/plain".to_string());
    let file2 = store.create("b_path1".to_string(), "text/plain".to_string());
    let file3 = store.create("b_path2".to_string(), "text/plain".to_string());
    for e in words() {
        block_on(file1.broadcast(e.clone())).unwrap();
        block_on(file2.broadcast(e.clone())).unwrap();
        block_on(file3.broadcast(e)).unwrap();
    }
    vec![file1, file2, file3]
}

fn as_set(list: Vec<String>) -> HashSet<String> {
    list.into_iter().collect()
}

fn set_of(items: &[&str]) -> HashSet<String> {
    items.iter().map(|e| e.to_string()).collect()
}

#[test]
fn test_put_at_wildcard_400s() {
    let mut store = new_store();
    let begun = put_stream(&mut store, "invalid*path".to_string(), &plain_text());

    // PUT at a path with a wildcard is a bad request, nothing is inserted
    match begun {
        Err(status) => assert_eq!(status, Status::BadRequest),
        Ok(_) => unreachable!(),
    }
    assert!(store.get("invalid*path").is_none());
}

#[test]
fn test_put_without_content_type_400s() {
    let mut store = new_store();
    let begun = put_stream(&mut store, "valid_path".to_string(), &HeaderMap::new());

    // PUT without Content-Type is a bad request, nothing is inserted
    match begun {
        Err(status) => assert_eq!(status, Status::BadRequest),
        Ok(_) => unreachable!(),
    }
    assert!(store.get("valid_path").is_none());
}

#[test]
fn test_put_works() {
    let mut store = new_store();
    let upload = match put_stream(&mut store, "valid_path".to_string(), &plain_text()) {
        Ok(upload) => upload,
        Err(_) => unreachable!(),
    };
    let status = upload_all(upload, &words());

    // A valid PUT goes through
    assert_eq!(status, Status::Created);
    assert!(store.get("valid_path").is_some());

    let file = store.get("valid_path").unwrap();
    assert_eq!(file.content_type(), "text/plain");

    let mut stored_data = "".to_string();
    let mut stream = file.data_stream();
    while let Some(v) = block_on(stream.next()) {
        stored_data += std::str::from_utf8(&v).unwrap();
    }
    assert_eq!(stored_data, joined());
}

#[test]
fn test_put_is_immediately_readable() {
    let mut store = new_store();
    let mut upload = match put_stream(&mut store, "valid_path".to_string(), &plain_text()) {
        Ok(upload) => upload,
        Err(_) => unreachable!(),
    };
    block_on(async {
        let first = BodyEvent::Chunk("The quick brown fox".as_bytes());
        assert!(carry_out(&mut upload, first).await.is_none());

        // The file is available after the first bytes are inserted
        let file = store.get("valid_path").unwrap();
        let mut stream = file.data_stream();
        assert_eq!(file.content_type(), "text/plain");
        assert_eq!(stream.next().await.unwrap(), "The quick brown fox".as_bytes());

        let second = BodyEvent::Chunk("jumps over the lazy dog".as_bytes());
        assert!(carry_out(&mut upload, second).await.is_none());
        assert_eq!(stream.next().await.unwrap(), "jumps over the lazy dog".as_bytes());

        let status = carry_out(&mut upload, BodyEvent::Ended).await;
        assert_eq!(status, Some(Status::Created));
    });
}

#[test]
fn test_put_force_stream_sleep() {
    let mut store = new_store();
    let mut upload = match put_stream(&mut store, "valid_path".to_string(), &plain_text()) {
        Ok(upload) => upload,
        Err(_) => unreachable!(),
    };
    let (may_go_on, go_on) = oneshot::channel::<()>();

    let reader = async {
        let file = store.get("valid_path").unwrap();
        let mut stream = file.data_stream();
        assert_eq!(file.content_type(), "text/plain");
        assert_eq!(stream.next().await.unwrap(), "The quick brown fox".as_bytes());
        may_go_on.send(()).unwrap();
        // Nothing has been sent yet, so the stream has to sleep and wake up
        assert_eq!(stream.next().await.unwrap(), "jumps over the lazy dog".as_bytes());
        assert!(stream.next().await.is_none());
    };
    let writer = async {
        let first = BodyEvent::Chunk("The quick brown fox".as_bytes());
        assert!(carry_out(&mut upload, first).await.is_none());
        go_on.await.unwrap();
        let second = BodyEvent::Chunk("jumps over the lazy dog".as_bytes());
        assert!(carry_out(&mut upload, second).await.is_none());
        carry_out(&mut upload, BodyEvent::Ended).await
    };
    let (_, status) = block_on(futures::future::join(reader, writer));
    assert_eq!(status, Some(Status::Created));
}

#[test]
fn test_get_nonexistent_404s() {
    let store = new_store();
    match get_stream(&store, "nonexistent_path") {
        Err(status) => assert_eq!(status, Status::NotFound),
        Ok(_) => unreachable!(),
    }
}

#[test]
fn test_get_returns_completed_file() {
    let mut store = new_store();
    let handle = store.create("existing_path".to_string(), "text/plain".to_string());
    for e in words() {
        block_on(handle.broadcast(e)).unwrap();
    }
    handle.close();

    match get_stream(&store, "existing_path") {
        Ok(download) => {
            assert_eq!(download.status, Status::Success);
            assert_eq!(read_all(download), joined());
        },
        Err(_) => unreachable!(),
    }
}

#[test]
fn test_get_returns_incomplete_file() {
    let mut store = new_store();
    let handle = store.create("valid_path".to_string(), "text/plain".to_string());
    block_on(handle.broadcast("The quick brown fox".to_string().into_bytes())).unwrap();

    let (may_push, push) = oneshot::channel::<()>();
    let reader = async {
        let download = match get_stream(&store, "valid_path") {
            Ok(download) => download,
            Err(_) => unreachable!(),
        };
        assert_eq!(download.status, Status::Success);
        assert_eq!(download.content_type, "text/plain");
        let mut stream = download.blocks;
        assert_eq!(stream.next().await.unwrap(), "The quick brown fox".as_bytes());
        may_push.send(()).unwrap();
        assert_eq!(stream.next().await.unwrap(), "jumps over the lazy dog".as_bytes());
    };
    let writer = async {
        push.await.unwrap();
        handle.broadcast("jumps over the lazy dog".to_string().into_bytes()).await.unwrap();
        handle.close();
    };
    block_on(futures::future::join(reader, writer));
}

#[test]
fn test_get_works_repeatedly() {
    let mut store = new_store();
    let handle = store.create("existing_path".to_string(), "text/plain".to_string());
    for e in words() {
        block_on(handle.broadcast(e)).unwrap();
    }
    handle.close();

    // Both GETs get the same result
    for _ in 0..2 {
        match get_stream(&store, "existing_path") {
            Ok(download) => {
                assert_eq!(download.status, Status::Success);
                assert_eq!(read_all(download), joined());
            },
            Err(_) => unreachable!(),
        }
    }
}

#[test]
fn test_delete_404s_when_not_found() {
    let mut store = new_store();
    assert_eq!(delete_stream(&mut store, "nonexistent_path"), Status::NotFound);
}

#[test]
fn test_delete_deletes() {
    let mut store = new_store();
    let handle = store.create("existing_path".to_string(), "text/plain".to_string());
    for e in words() {
        block_on(handle.broadcast(e)).unwrap();
    }

    assert_eq!(delete_stream(&mut store, "existing_path"), Status::NoContent);
    assert!(store.get("existing_path").is_none());
}

#[test]
fn test_list_400s_on_nonlast_wildcard() {
    let store = new_store();
    assert_eq!(list_streams(&store, "LIST", "part1*part2"), Err(Status::BadRequest));
}

#[test]
fn test_list_lists_all_prefix() {
    let mut store = new_store();
    let _handles = fill(&mut store);
    let list = list_streams(&store, "LIST", "*").unwrap();
    assert_eq!(as_set(list), set_of(&["a_path", "b_path1", "b_path2"]));
}

#[test]
fn test_list_lists_some_prefix() {
    let mut store = new_store();
    let _handles = fill(&mut store);
    let list = list_streams(&store, "LIST", "b_*").unwrap();
    assert_eq!(as_set(list), set_of(&["b_path1", "b_path2"]));
}

#[test]
fn test_list_lists_empty_prefix() {
    let mut store = new_store();
    let _handles = fill(&mut store);
    let list = list_streams(&store, "LIST", "c_*").unwrap();
    assert_eq!(as_set(list), set_of(&[]));
}

#[test]
fn test_list_lists_one_exact() {
    let mut store = new_store();
    let _handles = fill(&mut store);
    let list = list_streams(&store, "LIST", "b_path1").unwrap();
    assert_eq!(as_set(list), set_of(&["b_path1"]));
}

#[test]
fn test_list_lists_empty_exact() {
    let mut store = new_store();
    let _handles = fill(&mut store);
    let list = list_streams(&store, "LIST", "c_path").unwrap();
    assert_eq!(as_set(list), set_of(&[]));
}

#[test]
fn test_other_methods_405() {
    let store = new_store();
    assert_eq!(list_streams(&store, "POST", "*"), Err(Status::MethodNotAllowed));
    assert_eq!(list_streams(&store, "list", "*"), Err(Status::MethodNotAllowed));
    // The method is looked at before the path
    assert_eq!(list_streams(&store, "POST", "a*b"), Err(Status::MethodNotAllowed));
}

#[test]
fn test_help_page() {
    assert_eq!(
        show_help_page(),
        "<h1>RustStreamServer</h1>\
<p>Individual streams (`/{streamName}`) accept methods GET, PUT, DELETE</p>\
<p>To list all streams matching a prefix, use custom HTTP method LIST on (`/{prefix}*`)</p>"
    );
}

#[test]
fn test_status_codes() {
    assert_eq!(Status::Success.code(), 200);
    assert_eq!(Status::Created.code(), 201);
    assert_eq!(Status::NoContent.code(), 204);
    assert_eq!(Status::BadRequest.code(), 400);
    assert_eq!(Status::NotFound.code(), 404);
    assert_eq!(Status::MethodNotAllowed.code(), 405);
}

#[test]
fn test_failed_upload_keeps_what_came() {
    let mut store = new_store();
    let mut upload = match put_stream(&mut store, "path".to_string(), &plain_text()) {
        Ok(upload) => upload,
        Err(_) => unreachable!(),
    };
    block_on(async {
        assert!(carry_out(&mut upload, BodyEvent::Chunk(b"half")).await.is_none());
        assert_eq!(upload.pending_len(), 4);
        let status = carry_out(&mut upload, BodyEvent::Failed).await;
        assert_eq!(status, Some(Status::BadRequest));
    });
    match get_stream(&store, "path") {
        Ok(download) => assert_eq!(read_all(download), "half"),
        Err(_) => unreachable!(),
    }
}

#[test]
fn test_second_put_overwrites() {
    let mut store = new_store();
    let first = match put_stream(&mut store, "path".to_string(), &plain_text()) {
        Ok(upload) => upload,
        Err(_) => unreachable!(),
    };
    assert_eq!(upload_all(first, &[b"first".to_vec()]), Status::Created);
    let mut headers = HeaderMap::new();
    headers.insert(header::CONTENT_TYPE, "video/mp4".parse().unwrap());
    let second = match put_stream(&mut store, "path".to_string(), &headers) {
        Ok(upload) => upload,
        Err(_) => unreachable!(),
    };
    assert_eq!(upload_all(second, &[b"second".to_vec()]), Status::Created);
    match get_stream(&store, "path") {
        Ok(download) => {
            assert_eq!(download.content_type, "video/mp4");
            assert_eq!(read_all(download), "second");
        },
        Err(_) => unreachable!(),
    }
    assert_eq!(store.list("*"), vec!["path"]);
}

#[test]
fn test_refused_put_leaves_the_old_file() {
    let mut store = new_store();
    let first = match put_stream(&mut store, "path".to_string(), &plain_text()) {
        Ok(upload) => upload,
        Err(_) => unreachable!(),
    };
    assert_eq!(upload_all(first, &[b"first".to_vec()]), Status::Created);
    assert!(put_stream(&mut store, "path".to_string(), &HeaderMap::new()).is_err());
    match get_stream(&store, "path") {
        Ok(download) => assert_eq!(read_all(download), "first"),
        Err(_) => unreachable!(),
    }
}

#[test]
fn test_deletion_undoes_upload() {
    let mut store = new_store();
    let _handles = fill(&mut store);
    let before = store.list("*");
    assert!(put_stream(&mut store, "b_path".to_string(), &plain_text()).is_ok());
    assert_eq!(delete_stream(&mut store, "b_path"), Status::NoContent);
    assert_eq!(delete_stream(&mut store, "b_path"), Status::NotFound);
    assert_eq!(store.list("*"), before);
    assert!(get_stream(&store, "a_path").is_ok());
}

#[test]
fn test_listing_agrees_with_reading() {
    let mut store = new_store();
    let _handles = fill(&mut store);
    for path in store.list("b_*") {
        assert!(get_stream(&store, &path).is_ok());
    }
    assert_eq!(delete_stream(&mut store, "b_path1"), Status::NoContent);
    assert_eq!(list_streams(&store, "LIST", "b_*"), Ok(vec!["b_path2".to_string()]));
    assert_eq!(list_streams(&store, "LIST", "b_path1"), Ok(vec![]));
}

#[test]
fn test_begin_upload_needs_a_type_and_a_plain_path() {
    let mut store = new_store();
    let text = Some("text/plain".to_string());
    for (path, content_type) in [("*", text.clone()), ("a*b", text.clone()), ("a", None), ("a*", None)] {
        match begin_upload(&mut store, path.to_string(), content_type) {
            Err(status) => assert_eq!(status, Status::BadRequest),
            Ok(_) => unreachable!(),
        }
    }
    assert!(store.list("*").is_empty());
    let upload = match begin_upload(&mut store, "a".to_string(), text) {
        Ok(upload) => upload,
        Err(_) => unreachable!(),
    };
    assert_eq!(upload.handle().capacity(), 0x10);
    assert_eq!(upload.pending_len(), 0);
    assert_eq!(store.list("*"), vec!["a"]);
}
