use cache_action::async_read_ext::{Fill, TryFill};
use cache_action::protocol::StoreDir;
use cache_action::store_path::{StoreBasename, StorePath};
use cache_action::sub60_cache::CacheRequestError;
use cache_action::upload_nar::{
    NarUpload, NarUploadState, PartRead, PartUploaded, UploadStep, EXPIRATION_MARGIN,
};

/// What an upload did: the parts, each with the URL that it was put to, the
/// numbers of the parts whose URLs were asked for, and the ETags in the end.
struct Done {
    parts: Vec<(String, Vec<u8>)>,
    requests: Vec<Vec<u16>>,
    etags: Vec<String>,
}

fn upload(
    mut nar: &[u8],
    part_size: u32,
    part_urls: Vec<String>,
    expiration: u128,
    now: u128,
) -> Result<Done, CacheRequestError> {
    let mut state = NarUploadState::new(
        &path(),
        part_size,
        part_urls,
        "id".to_owned(),
        expiration,
    );
    let mut upload = NarUpload::new();
    let mut parts = Vec::new();
    let mut requests = Vec::new();
    loop {
        let url = match upload.next(&mut state, now) {
            UploadStep::RequestPartUrls(numbers) => {
                let numbers = numbers.into_vec();
                let urls = numbers.iter().map(|n| format!("u{n}")).collect();
                requests.push(numbers);
                state.on_part_urls(urls, now + EXPIRATION_MARGIN + 1);
                continue;
            },
            UploadStep::ReadPart { url } => url,
        };
        let n = nar.len().min(state.part_size as usize);
        let (part, rest) = nar.split_at(n);
        nar = rest;
        if upload.on_read(Ok(n))? == PartRead::Complete {
            break;
        }
        let etag = format!("etag-{url}");
        parts.push((url, part.to_vec()));
        if upload.on_uploaded(&state, n, etag)? == PartUploaded::Complete {
            break;
        }
    }
    assert_eq!(state.upload_id, "id");
    assert_eq!(state.store_basename.to_text(), "aaaa-foo");
    assert_eq!(state.part_size, part_size);
    Ok(Done { parts, requests, etags: upload.finish().to_vec() })
}

#[test]
fn parts_make_up_the_nar() {
    for len in [1, 2, 3, 4, 5, 11, 12, 13, 40] {
        let nar = (0..len).collect::<Vec<u8>>();
        let done = upload(&nar, 4, vec![], 0, 0).unwrap();
        let joined = done
            .parts
            .iter()
            .flat_map(|(_, bytes)| bytes.iter().copied())
            .collect::<Vec<u8>>();
        assert_eq!(joined, nar);
        for (i, (url, bytes)) in done.parts.iter().enumerate() {
            assert_eq!(url, &format!("u{}", i + 1));
            assert!(bytes.len() == 4 || i + 1 == done.parts.len());
        }
        assert_eq!(done.etags.len(), done.parts.len());
        assert_eq!(done.etags[0], "etag-u1");
    }
}

#[test]
fn empty_nar_has_no_parts() {
    let done = upload(&[], 4, vec!["u1".to_owned()], 1 << 100, 0).unwrap();
    assert!(done.parts.is_empty());
    assert!(done.etags.is_empty());
    assert!(done.requests.is_empty());
}

#[test]
fn urls_are_asked_for_four_at_a_time() {
    let urls = vec!["u1".to_owned(), "u2".to_owned()];
    let done = upload(&[7; 7], 1, urls, 1 << 100, 0).unwrap();
    assert_eq!(done.requests, [vec![3, 4, 5, 6], vec![7, 8, 9, 10]]);
}

#[test]
fn urls_that_are_about_to_expire_are_given_up() {
    let urls = || vec!["old".to_owned()];
    let now = 1000;
    let done = upload(&[7], 2, urls(), now + EXPIRATION_MARGIN, now).unwrap();
    assert_eq!(done.parts[0].0, "u1");
    let done =
        upload(&[7], 2, urls(), now + EXPIRATION_MARGIN + 1, now).unwrap();
    assert_eq!(done.parts[0].0, "old");
}

#[test]
fn there_are_at_most_65535_parts() {
    let done = upload(&vec![7; 65534], 1, vec![], 0, 0).unwrap();
    assert_eq!(done.parts.len(), 65534);
    assert_eq!(done.requests.last().unwrap(), &[65533, 65534, 65535]);
    assert!(matches!(
        upload(&vec![7; 65535], 1, vec![], 0, 0),
        Err(CacheRequestError::TooManyNarParts)
    ));
}

#[test]
fn nar_that_cannot_be_read() {
    let upload = NarUpload::new();
    match upload.on_read(Err("gone".to_owned())) {
        Err(error) => assert_eq!(error.to_text(), "couldn't read NAR bytes: gone"),
        Ok(_) => panic!("expected an error"),
    }
}

#[test]
fn buffers_are_filled() {
    for (len, left, max_read) in [(10, 25, 3), (10, 4, 3), (10, 10, 10), (5, 0, 1)] {
        let mut fill = TryFill::new(len);
        let mut left_now: usize = left;
        let mut next = fill.next();
        let num_read = loop {
            match next {
                Fill::Read { from } => {
                    let n = (len - from).min(left_now).min(max_read);
                    left_now -= n;
                    next = fill.on_read(Ok(n)).unwrap();
                },
                Fill::Done { num_read } => break num_read,
            }
        };
        assert_eq!(num_read, len.min(left));
    }
}

#[test]
fn empty_buffers_are_full() {
    assert_eq!(TryFill::new(0).next(), Fill::Done { num_read: 0 });
}

#[test]
fn buffers_that_cannot_be_filled() {
    let mut fill = TryFill::new(3);
    assert_eq!(fill.on_read(Ok(1)).unwrap(), Fill::Read { from: 1 });
    assert_eq!(fill.on_read(Err("gone".to_owned())).unwrap_err(), "gone");
}

fn path() -> StorePath {
    StorePath {
        store_dir: StoreDir::NixStore,
        basename: StoreBasename { hash: "aaaa".to_owned(), name: "foo".to_owned() },
    }
}
