use cache_action::io_error::{IoError, IoErrorKind};
use cache_action::protocol::{
    Message, Next, ReceiveError, Receiver, Sender, StoreDir, RECEIVE_BUFFER_SIZE,
};
use cache_action::store_path::{StoreBasename, StorePath};

#[test]
fn send_single_store_path() {
    let bytes = send_messages(vec![Message::PushStorePath(path(
        "/nix/store/aaaaaaaaaaaaaaaaaaaaaaaaaaaaaaaa-hello",
    ))]);

    assert_eq!(
        bytes,
        b"/nix/store/aaaaaaaaaaaaaaaaaaaaaaaaaaaaaaaa-hello\n",
    );
}

#[test]
fn send_drain() {
    assert_eq!(send_messages(vec![Message::DrainDaemon]), b"\0");
}

#[test]
fn send_paths_then_drain() {
    let bytes = send_messages(vec![
        Message::PushStorePath(path(
            "/nix/store/aaaaaaaaaaaaaaaaaaaaaaaaaaaaaaaa-foo",
        )),
        Message::PushStorePath(path(
            "/nix/store/bbbbbbbbbbbbbbbbbbbbbbbbbbbbbbbb-bar",
        )),
        Message::DrainDaemon,
    ]);

    assert_eq!(
        bytes,
        b"/nix/store/aaaaaaaaaaaaaaaaaaaaaaaaaaaaaaaa-foo\n\
          /nix/store/bbbbbbbbbbbbbbbbbbbbbbbbbbbbbbbb-bar\n\
          \0",
    );
}

#[test]
fn receive_single_store_path() {
    let msgs = parse_messages(
        b"/nix/store/aaaaaaaaaaaaaaaaaaaaaaaaaaaaaaaa-hello\n",
    );
    assert_eq!(msgs.len(), 1);
    match &msgs[0] {
        Ok(Message::PushStorePath(p)) => assert_eq!(
            p.to_text(),
            "/nix/store/aaaaaaaaaaaaaaaaaaaaaaaaaaaaaaaa-hello",
        ),
        other => panic!("unexpected: {other:?}"),
    }
}

#[test]
fn receive_multiple_store_paths() {
    let msgs = parse_messages(
        b"/nix/store/aaaaaaaaaaaaaaaaaaaaaaaaaaaaaaaa-foo\n\
          /nix/store/bbbbbbbbbbbbbbbbbbbbbbbbbbbbbbbb-bar\n",
    );
    assert_eq!(msgs.len(), 2);
    assert!(matches!(&msgs[0], Ok(Message::PushStorePath(_))));
    assert!(matches!(&msgs[1], Ok(Message::PushStorePath(_))));
}

#[test]
fn receive_drain() {
    let msgs = parse_messages(b"\0");
    assert_eq!(msgs.len(), 1);
    assert!(matches!(msgs[0], Ok(Message::DrainDaemon)));
}

#[test]
fn receive_paths_then_drain() {
    let msgs = parse_messages(
        b"/nix/store/aaaaaaaaaaaaaaaaaaaaaaaaaaaaaaaa-foo\n\0",
    );
    assert_eq!(msgs.len(), 2);
    assert!(matches!(msgs[0], Ok(Message::PushStorePath(_))));
    assert!(matches!(msgs[1], Ok(Message::DrainDaemon)));
}

#[test]
fn receive_empty_input() {
    assert!(parse_messages(b"").is_empty());
}

#[test]
fn receive_invalid_store_path() {
    let msgs = parse_messages(b"not-a-store-path\n");
    assert_eq!(msgs.len(), 1);
    assert!(matches!(msgs[0], Err(ReceiveError::InvalidStorePath(_))));
}

#[test]
fn receive_ignores_what_follows_a_drain() {
    let msgs = parse_messages(b"\0/nix/store/aaaa-foo\n");
    assert_eq!(msgs.len(), 1);
    assert!(matches!(msgs[0], Ok(Message::DrainDaemon)));
}

#[test]
fn receive_ends_with_an_invalid_store_path() {
    let msgs = parse_messages(b"not-a-store-path\n/nix/store/aaaa-foo\n");
    assert_eq!(msgs.len(), 1);
}

#[test]
fn receive_ignores_an_unfinished_line() {
    assert!(parse_messages(b"/nix/store/aaaa-foo").is_empty());
}

#[test]
fn receive_does_not_depend_on_the_size_of_reads() {
    let input = b"/nix/store/aaaa-foo\n/nix/store/bbbb-bar\n\0";
    for size in [1, 2, 3, 7, 20, 1000] {
        let texts = parse_in_chunks(input, size)
            .into_iter()
            .map(|msg| match msg {
                Ok(Message::PushStorePath(path)) => path.to_text(),
                Ok(Message::DrainDaemon) => "drain".to_owned(),
                Err(error) => error.to_text(),
            })
            .collect::<Vec<_>>();
        assert_eq!(
            texts,
            ["/nix/store/aaaa-foo", "/nix/store/bbbb-bar", "drain"]
        );
    }
}

#[test]
fn receive_gives_back_the_paths_that_were_sent() {
    let texts = ["/nix/store/aaaa-foo", "/other/store/bbbb-b\u{e4}r"];
    let bytes = send_messages(
        texts.iter().map(|text| Message::PushStorePath(path(text))).collect(),
    );
    let received = parse_messages(&bytes)
        .into_iter()
        .map(|msg| match msg {
            Ok(Message::PushStorePath(path)) => path.to_text(),
            other => panic!("unexpected: {other:?}"),
        })
        .collect::<Vec<_>>();
    assert_eq!(received, texts);
}

#[test]
fn receive_has_room_for_lines_shorter_than_the_buffer() {
    let mut line = vec![b'a'; RECEIVE_BUFFER_SIZE - 1];
    line.push(b'\n');
    assert_eq!(parse_messages(&line).len(), 1);

    let mut line = vec![b'a'; RECEIVE_BUFFER_SIZE];
    line.push(b'\n');
    assert!(parse_messages(&line).is_empty());
}

#[test]
fn receive_turns_down_lines_that_are_not_utf8() {
    let msgs = parse_messages(b"/nix/store/\xff\n");
    assert_eq!(msgs.len(), 1);
    match &msgs[0] {
        Err(error) => {
            assert_eq!(
                error.to_text(),
                "I/O error: invalid utf-8 sequence of 1 bytes from index 11",
            );
            assert!(matches!(
                error,
                ReceiveError::Io(IoError { kind: IoErrorKind::InvalidData, .. })
            ));
        },
        other => panic!("unexpected: {other:?}"),
    }
}

#[test]
fn receive_ends_with_a_line_that_is_not_utf8() {
    let msgs = parse_messages(b"\xff\n\0");
    assert_eq!(msgs.len(), 1);
    assert!(matches!(
        msgs[0],
        Err(ReceiveError::Io(IoError { kind: IoErrorKind::InvalidData, .. }))
    ));
}

#[test]
fn receive_ends_before_a_line_that_is_too_long() {
    let mut input = b"/nix/store/aaaa-foo\n".to_vec();
    input.extend_from_slice(&[b'a'; RECEIVE_BUFFER_SIZE]);
    input.extend_from_slice(b"\n/nix/store/bbbb-bar\n");
    for size in [1, 100, 1000, 5000] {
        assert_eq!(parse_in_chunks(&input, size).len(), 1);
    }
}

#[test]
fn receive_reports_failed_reads() {
    let mut receiver = Receiver::new();
    assert!(matches!(receiver.poll_next(), Next::ReadMore { room: 1024 }));
    match receiver.on_read(Err(IoError {
        kind: IoErrorKind::ConnectionReset,
        message: "broken".to_owned(),
    })) {
        Next::Item(Err(error)) => {
            assert_eq!(error.to_text(), "I/O error: broken");
            assert!(matches!(
                error,
                ReceiveError::Io(IoError { kind: IoErrorKind::ConnectionReset, .. })
            ));
        },
        _ => panic!("expected an error"),
    }
    assert!(matches!(receiver.poll_next(), Next::End));
}

#[test]
fn send_goes_on_after_short_writes() {
    let mut sender = Sender::new();
    sender.start_send(&Message::PushStorePath(path("/nix/store/aaaa-foo")));
    assert!(sender.on_written(4).is_ok());
    assert_eq!(sender.next_write().unwrap(), b"/store/aaaa-foo\n");
    let error = sender.on_written(0).unwrap_err();
    assert_eq!(error.to_text(), "write returned 0");
    assert_eq!(error.kind(), IoErrorKind::WriteZero);
    assert!(sender.on_written(16).is_ok());
    assert!(sender.next_write().is_none());
}

#[test]
fn store_dir_from_str() {
    assert!(matches!(StoreDir::from_str("/nix/store"), Ok(StoreDir::NixStore)));
    match StoreDir::from_str("/home/store") {
        Ok(dir) => assert_eq!(dir.to_text(), "/home/store"),
        Err(_) => panic!("expected a store directory"),
    }
    match StoreDir::from_str("/a\u{e4}\0b\0") {
        Ok(_) => panic!("expected an error"),
        Err(error) => assert_eq!(error.position, 4),
    }
}

fn parse_messages(input: &[u8]) -> Vec<Result<Message, ReceiveError>> {
    parse_in_chunks(input, usize::MAX)
}

fn parse_in_chunks(
    mut input: &[u8],
    max_read: usize,
) -> Vec<Result<Message, ReceiveError>> {
    let mut receiver = Receiver::new();
    let mut results = Vec::new();
    let mut next = receiver.poll_next();
    loop {
        next = match next {
            Next::End => return results,
            Next::ReadMore { room } => {
                let n = input.len().min(room).min(max_read);
                let (read, rest) = input.split_at(n);
                input = rest;
                receiver.on_read(Ok(read.to_vec()))
            },
            Next::ParsePath(text) => {
                results.push(receiver.on_parsed(parse_path(&text)));
                receiver.poll_next()
            },
            Next::Item(item) => {
                results.push(item);
                receiver.poll_next()
            },
        };
    }
}

fn send_messages(messages: Vec<Message>) -> Vec<u8> {
    let mut sender = Sender::new();
    let mut written = Vec::new();
    for message in &messages {
        sender.start_send(message);
    }
    while let Some(bytes) = sender.next_write() {
        written.extend_from_slice(&bytes);
        sender.on_written(bytes.len()).unwrap();
    }
    written
}

fn path(s: &str) -> StorePath {
    parse_path(s).unwrap()
}

fn parse_path(s: &str) -> Result<StorePath, String> {
    let (dir, basename) = s.rsplit_once('/').ok_or("not a path".to_owned())?;
    let (hash, name) = basename.split_once('-').unwrap_or((basename, ""));
    Ok(StorePath {
        store_dir: StoreDir::from_str(dir).map_err(|_| "interior nul".to_owned())?,
        basename: StoreBasename { hash: hash.to_owned(), name: name.to_owned() },
    })
}
