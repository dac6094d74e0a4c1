use stream_server::numbers::{stream_url, Mismatch, NumberCheck, NumberSource};

#[test]
fn urls() {
    assert_eq!(stream_url("qwer"), "http://127.0.0.1:3000/qwer");
    assert_eq!(stream_url(""), "http://127.0.0.1:3000/");
}

#[test]
fn first_chunks() {
    let mut source = NumberSource::new();
    let first = source.next_chunk().unwrap();
    assert_eq!(first.len(), 4_095);
    assert_eq!(&first[..3], &[0, 1, 2]);
    assert_eq!(&first[254..258], &[254, 255, 0, 1]);
    assert_eq!(first[4_094], 254);
    let second = source.next_chunk().unwrap();
    assert_eq!(&second[..2], &[255, 0]);
}

#[test]
fn chunks_are_accepted_however_they_are_cut() {
    let mut source = NumberSource::new();
    let mut check = NumberCheck::new();
    for cut in 0..1_000 {
        let chunk = source.next_chunk().unwrap();
        let (left, right) = chunk.split_at(cut);
        assert_eq!(check.check(left), Ok(()));
        assert_eq!(check.check(right), Ok(()));
    }
}

#[test]
fn source_ends() {
    let mut source = NumberSource::new();
    let mut count = 0;
    while let Some(chunk) = source.next_chunk() {
        assert_eq!(chunk[0], (count * 4_095 % 256) as u8);
        count += 1;
    }
    assert_eq!(count, 500_000);
    assert!(source.next_chunk().is_none());
}

#[test]
fn wrong_byte_is_told() {
    let mut check = NumberCheck::new();
    assert_eq!(check.check(&[]), Ok(()));
    assert_eq!(check.check(&[0, 1, 2]), Ok(()));
    assert_eq!(check.check(&[3, 5, 6]), Err(Mismatch { found: 5, expected: 4 }));
    let mut again = NumberCheck::new();
    assert_eq!(again.check(&[1]), Err(Mismatch { found: 1, expected: 0 }));
}
