use cache_action::bytes_order::{le, sort, ByteSet};
use cache_action::draining::Draining;
use cache_action::event_loop::{
    handle_io, Event, EventLoop, HandlePathError, IoStep, MessageAction, PathOutcome,
    MAX_CONCURRENT_STORE_PATHS,
};
use cache_action::handle_store_path::{
    CheckExistence, Checked, HashAndCountWriter, InitiateUpload, PathInfos, PushCheck,
    PushDecision, PushProgress, StreamError, UpstreamCheck, NAR_COMPRESSION,
};
use cache_action::protocol::{Message, ReceiveError, StoreDir};
use cache_action::store_path::{CompressionAlgorithm, StoreBasename, StorePath};

#[test]
fn clients_are_listened_to() {
    assert!(matches!(handle_io(None), IoStep::Return));
    assert!(matches!(
        handle_io(Some(Ok(Message::DrainDaemon))),
        IoStep::ForwardAndReturn(Event::Stop)
    ));
    match handle_io(Some(Ok(Message::PushStorePath(path("a", "foo"))))) {
        IoStep::Forward(Ok(Event::PushStorePath(path))) => {
            assert_eq!(path.to_text(), "/nix/store/a-foo")
        },
        other => panic!("unexpected: {other:?}"),
    }
    assert!(matches!(
        handle_io(Some(Err(ReceiveError::InvalidStorePath("gone".to_owned())))),
        IoStep::Forward(Err(ReceiveError::InvalidStorePath(_)))
    ));
}

#[test]
fn messages_are_acted_on() {
    let mut event_loop = EventLoop::new();
    assert!(matches!(
        event_loop.on_message(Err(ReceiveError::InvalidStorePath("gone".to_owned()))),
        MessageAction::ReportError(_)
    ));
    assert!(matches!(
        event_loop.on_message(Ok(Event::Stop)),
        MessageAction::KeepForProgress
    ));
    assert!(event_loop.is_ready_to_drain());
    assert!(event_loop.is_drained());
}

#[test]
fn daemon_waits_for_closures_before_it_drains() {
    let mut event_loop = EventLoop::new();
    push(&mut event_loop, path("a", "foo"));
    event_loop.on_message(Ok(Event::Stop));
    assert!(!event_loop.is_ready_to_drain());
    assert_eq!(event_loop.on_store_closure(Ok(vec![path("a", "foo")])).len(), 1);
    assert!(event_loop.is_ready_to_drain());
    assert!(!event_loop.is_drained());
    assert_eq!(event_loop.num_paths_left_to_handle(), 1);
}

#[test]
fn each_hash_is_handled_once() {
    let mut event_loop = EventLoop::new();
    push(&mut event_loop, path("a", "foo"));
    push(&mut event_loop, path("b", "bar"));
    let started = event_loop.on_store_closure(Ok(vec![
        path("b", "bar"),
        path("a", "foo"),
        path("b", "other"),
    ]));
    assert_eq!(texts(&started), ["/nix/store/b-bar", "/nix/store/a-foo"]);
    let started =
        event_loop.on_store_closure(Ok(vec![path("c", "baz"), path("b", "bar")]));
    assert_eq!(texts(&started), ["/nix/store/c-baz"]);
}

#[test]
fn no_path_is_lost() {
    let mut event_loop = EventLoop::new();
    push(&mut event_loop, path("a", "foo"));
    push(&mut event_loop, path("x", "broken"));
    let closure =
        (0..40).map(|i| path(&format!("h{i:02}"), "foo")).collect::<Vec<_>>();
    let mut handled = event_loop.on_store_closure(Ok(closure));
    assert_eq!(handled.len(), MAX_CONCURRENT_STORE_PATHS);
    assert!(event_loop
        .on_store_closure(Err((path("x", "broken"), "no closure".to_owned())))
        .is_empty());
    assert_eq!(event_loop.num_paths_left_to_handle(), 40);

    let mut i = 0;
    while i < handled.len() {
        let outcome = match i % 3 {
            0 => Ok(pushed(10)),
            1 => Ok(PathOutcome::InCache),
            _ => Err(HandlePathError::GetPathInfos("unknown".to_owned())),
        };
        assert!(event_loop.has_room_for(&outcome));
        let next = event_loop.on_path_handled(handled[i].clone(), outcome);
        assert_eq!(next.is_some(), i < 8);
        handled.extend(next);
        i += 1;
    }
    assert_eq!(handled.len(), 40);
    assert!(event_loop.is_drained());
    assert_eq!(event_loop.num_paths_left_to_handle(), 0);

    let report = event_loop.into_report();
    assert_eq!(report.num_paths_pushed, 14);
    assert_eq!(report.num_bytes_pushed, 140);
    assert_eq!(report.num_paths_skipped, 13);
    assert_eq!(report.path_handling_errors.len(), 13);
    assert_eq!(report.path_closure_errors.len(), 1);
    assert_eq!(report.path_closure_errors[0].0.to_text(), "/nix/store/x-broken");
    assert_eq!(report.path_closure_errors[0].1, "no closure");
}

#[test]
fn report_can_be_full() {
    let mut event_loop = EventLoop::new();
    push(&mut event_loop, path("a", "foo"));
    event_loop.on_store_closure(Ok(vec![path("a", "foo"), path("b", "bar")]));
    event_loop.on_path_handled(path("a", "foo"), Ok(pushed(u64::MAX)));
    assert!(!event_loop.has_room_for(&Ok(pushed(1))));
    assert!(event_loop.has_room_for(&Ok(PathOutcome::InCache)));
    assert!(event_loop.has_room_for(&Ok(PathOutcome::InUpstreamCache)));
}

#[test]
fn skipped_paths_are_in_the_cache() {
    let mut event_loop = EventLoop::new();
    push(&mut event_loop, path("a", "foo"));
    let closure =
        (0..36).map(|i| path(&format!("h{i:02}"), "foo")).collect::<Vec<_>>();
    let mut handled = event_loop.on_store_closure(Ok(closure));
    event_loop.on_message(Ok(Event::Stop));
    let (mut draining, _) = Draining::new(event_loop);
    let mut i = 0;
    while i < handled.len() {
        let (outcome, line) = match i % 4 {
            0 => (pushed(2), "Pushed"),
            1 => (PathOutcome::InCache, "Skipped"),
            _ => (PathOutcome::InUpstreamCache, "Skipped"),
        };
        let (told, next) = draining.on_path_handled(handled[i].clone(), Ok(outcome));
        assert_eq!(told, format!("{line} {}\n", handled[i].to_text()));
        handled.extend(next);
        i += 1;
    }
    assert_eq!(i, 36);
    assert!(draining.is_drained());
    assert_eq!(
        draining.finish(),
        "\n\
         9 store paths were skipped\n\
         9 store paths were pushed, totalling 18 B\n"
    );
}

#[test]
fn upstream_path_leaves_the_report_as_it_is() {
    let mut event_loop = EventLoop::new();
    push(&mut event_loop, path("a", "foo"));
    event_loop.on_store_closure(Ok(vec![path("a", "foo")]));
    let outcome = Ok(PathOutcome::InUpstreamCache);
    assert!(event_loop.on_path_handled(path("a", "foo"), outcome).is_none());
    assert!(event_loop.is_drained());
    let report = event_loop.into_report();
    assert_eq!((report.num_paths_pushed, report.num_bytes_pushed), (0, 0));
    assert_eq!(report.num_paths_skipped, 0);
    assert!(report.path_handling_errors.is_empty());
    assert!(report.path_closure_errors.is_empty());
}

#[test]
fn announced_paths_are_reported() {
    let mut event_loop = EventLoop::new();
    push(&mut event_loop, path("a", "foo"));
    event_loop.on_message(Ok(Event::Stop));
    let closure =
        (0..34).map(|i| path(&format!("h{i:02}"), "foo")).collect::<Vec<_>>();
    let mut handled = event_loop.on_store_closure(Ok(closure));
    assert!(event_loop.is_ready_to_drain());
    event_loop.on_path_handled(handled.remove(0), Ok(pushed(1024))).into_iter().for_each(
        |path| handled.push(path),
    );
    let (mut draining, msg) = Draining::new(event_loop);
    assert_eq!(msg.unwrap(), "There are still 33 store paths left to handle\n");
    let mut lines = Vec::new();
    while !draining.is_drained() {
        let path = handled.remove(0);
        let outcome = if lines.is_empty() {
            Err(HandlePathError::WriteNarWroteZeroBytes)
        } else {
            Ok(PathOutcome::InCache)
        };
        assert!(draining.has_room_for(&outcome));
        let (line, next) = draining.on_path_handled(path, outcome);
        lines.push(line);
        handled.extend(next);
    }
    assert!(handled.is_empty());
    assert_eq!(lines.len(), 33);
    assert_eq!(lines[0], "Failed handling /nix/store/h01-foo\n");
    assert_eq!(lines[32], "Skipped /nix/store/h33-foo\n");
    assert_eq!(
        draining.finish(),
        "\n\
         32 store paths were skipped\n\
         1 store path was pushed, totalling 1.0 KiB\n\
         1 store path could not be handled\n\
         /nix/store/h01-foo: got empty NAR from store\n"
    );
}

#[test]
fn nothing_is_announced_when_nothing_is_left() {
    let mut event_loop = EventLoop::new();
    event_loop.on_message(Ok(Event::Stop));
    let (draining, msg) = Draining::new(event_loop);
    assert!(msg.is_none() && draining.is_drained());
    assert_eq!(
        draining.finish(),
        "0 store paths were skipped\n\
         0 store paths were pushed, totalling 0 B\n"
    );
}

#[test]
fn texts_of_handling_errors() {
    let text = || "why".to_owned();
    let texts = [
        HandlePathError::CheckNarInfoExistence(text()).to_text(),
        HandlePathError::CreateNarUploadId(text()).to_text(),
        HandlePathError::GetPathInfos(text()).to_text(),
        HandlePathError::UploadNar(text()).to_text(),
        HandlePathError::UploadNarInfo(text()).to_text(),
        HandlePathError::WriteNar(text()).to_text(),
        HandlePathError::WriteNarWroteZeroBytes.to_text(),
    ];
    assert_eq!(
        texts,
        [
            "couldn't check NARInfo existence on remote cache: why",
            "couldn't create NAR upload ID: why",
            "couldn't get store path infos: why",
            "couldn't upload NAR to cache: why",
            "couldn't upload NARInfo to cache: why",
            "couldn't get NAR from store: why",
            "got empty NAR from store",
        ]
    );
}

#[test]
fn order_of_answers_does_not_matter() {
    let down = || "down".to_owned();
    let skipped = PushDecision::CacheHas;
    let skipped_upstream = PushDecision::UpstreamHas;
    for (cache, upstream, cache_decides, upstream_decides) in [
        (Ok(true), true, Ok(skipped), Ok(skipped_upstream)),
        (Ok(true), false, Ok(skipped), Ok(skipped)),
        (Ok(false), true, Ok(skipped_upstream), Ok(skipped_upstream)),
        (Ok(false), false, Ok(PushDecision::Push), Ok(PushDecision::Push)),
        (Err(down()), true, Ok(skipped_upstream), Ok(skipped_upstream)),
        (Err(down()), false, Err(down()), Err(down())),
    ] {
        let cache_first = match PushCheck::Waiting.on_cache_answer(cache.clone()) {
            PushProgress::Decided(decision) => decision,
            PushProgress::Undecided(check) => {
                match check.on_upstream_answer(upstream) {
                    PushProgress::Decided(decision) => decision,
                    PushProgress::Undecided(_) => panic!("both have answered"),
                }
            },
        };
        let upstream_first = match PushCheck::Waiting.on_upstream_answer(upstream) {
            PushProgress::Decided(decision) => decision,
            PushProgress::Undecided(check) => {
                match check.on_cache_answer(cache.clone()) {
                    PushProgress::Decided(decision) => decision,
                    PushProgress::Undecided(_) => panic!("both have answered"),
                }
            },
        };
        assert_eq!(cache_first, cache_decides);
        assert_eq!(upstream_first, upstream_decides);
    }
}

#[test]
fn upstream_caches_are_asked() {
    assert_eq!(UpstreamCheck::new(0).verdict(), Some(false));
    let mut check = UpstreamCheck::new(3);
    assert_eq!(check.verdict(), None);
    check.on_reply(Some(404));
    check.on_reply(None);
    assert_eq!(check.verdict(), None);
    check.on_reply(Some(204));
    assert_eq!(check.verdict(), Some(false));
    let mut check = UpstreamCheck::new(3);
    check.on_reply(Some(200));
    assert_eq!(check.verdict(), Some(true));
}

#[test]
fn written_bytes_are_hashed_and_counted() {
    let mut writer = HashAndCountWriter::new();
    writer.on_written(b"abcdef", 2);
    writer.on_written(b"c", 1);
    writer.on_written(b"xyz", 0);
    assert_eq!(writer.num_bytes_written(), 3);
    let (digest, num_bytes) = writer.finish();
    assert_eq!(
        hex(&digest),
        "ba7816bf8f01cfea414140de5dae2223b00361a396177a9cb410ff61f20015ad"
    );
    assert_eq!(num_bytes, 3);
    let (digest, num_bytes) = HashAndCountWriter::new().finish();
    assert_eq!(
        hex(&digest),
        "e3b0c44298fc1c149afbf4c8996fb92427ae41e4649b934ca495991b7852b855"
    );
    assert_eq!(num_bytes, 0);
}

#[test]
fn store_path_is_pushed() {
    let step = CheckExistence::new(path("a", "foo"));
    assert_eq!(step.narinfo_filename().to_text(), "a.narinfo");
    let step = checked(step);
    assert_eq!(step.store_path().to_text(), "/nix/store/a-foo");
    let mut step =
        step.on_initiated(Ok("state".to_owned())).unwrap_or_else(|_| panic!());
    assert_eq!(step.store_path().to_text(), "/nix/store/a-foo");
    assert_eq!(step.upload_state(), "state");
    step.upload_state().push_str(", changed");
    let step = step
        .on_streamed(writer(b"abc"), writer(b"\xfd7zXZ"), Ok(()))
        .unwrap_or_else(|_| panic!());
    assert_eq!(step.store_path().to_text(), "/nix/store/a-foo");
    let step = step.on_described(Ok(infos())).unwrap_or_else(|_| panic!());
    assert_eq!(step.narinfo_filename().to_text(), "a.narinfo");
    assert_eq!(step.upload_state(), "state, changed");
    let narinfo = step.narinfo_to_upload();
    assert_eq!(narinfo.store_path.to_text(), "/nix/store/a-foo");
    assert_eq!(narinfo.compression, NAR_COMPRESSION);
    assert_ne!(narinfo.compression, CompressionAlgorithm::Uncompressed);
    assert_eq!(hex(&narinfo.nar_hash)[..8], *"ba7816bf");
    assert_eq!(narinfo.file_hash, writer(b"\xfd7zXZ").finish().0);
    assert_eq!((narinfo.file_size, narinfo.nar_size), (5, 3));
    assert_eq!(narinfo.references[0].to_text(), "r-ref");
    assert_eq!(narinfo.deriver.as_ref().unwrap().to_text(), "d-drv");
    assert_eq!(narinfo.signatures, ["sig"]);
    assert_eq!(narinfo.content_address.as_ref().unwrap(), "ca");
    assert_eq!(step.on_uploaded(Ok(7)).unwrap_or_else(|_| panic!()), pushed(12));
}

#[test]
fn number_of_pushed_bytes_saturates() {
    let step = describe().on_described(Ok(infos())).unwrap_or_else(|_| panic!());
    assert_eq!(
        step.on_uploaded(Ok(u64::MAX)).unwrap_or_else(|_| panic!()),
        pushed(u64::MAX)
    );
}

#[test]
fn store_path_is_skipped() {
    let step = || CheckExistence::new(path("a", "foo"));
    assert!(matches!(
        step().on_checked(Ok(PushDecision::CacheHas)),
        Ok(Checked::Skip(PathOutcome::InCache))
    ));
    assert!(matches!(
        step().on_checked(Ok(PushDecision::UpstreamHas)),
        Ok(Checked::Skip(PathOutcome::InUpstreamCache))
    ));
}

#[test]
fn store_path_cannot_be_pushed() {
    let why = || Err::<(), String>("why".to_owned());
    let step = CheckExistence::new(path("a", "foo"));
    assert!(matches!(
        step.on_checked(Err("why".to_owned())),
        Err(HandlePathError::CheckNarInfoExistence(_))
    ));
    assert!(matches!(
        initiate().on_initiated(why()),
        Err(HandlePathError::CreateNarUploadId(_))
    ));
    let stream = || initiate().on_initiated(Ok(())).unwrap_or_else(|_| panic!());
    assert!(matches!(
        stream().on_streamed(writer(b""), writer(b"file"), Ok(())),
        Err(HandlePathError::WriteNarWroteZeroBytes)
    ));
    assert!(matches!(
        stream().on_streamed(
            writer(b"abc"),
            writer(b"file"),
            Err(StreamError::WriteNar("why".to_owned())),
        ),
        Err(HandlePathError::WriteNar(_))
    ));
    assert!(matches!(
        stream().on_streamed(
            writer(b"abc"),
            writer(b"file"),
            Err(StreamError::UploadNar("why".to_owned())),
        ),
        Err(HandlePathError::UploadNar(_))
    ));
    assert!(matches!(
        describe().on_described(Err("why".to_owned())),
        Err(HandlePathError::GetPathInfos(_))
    ));
    let two_errors = PathInfos {
        deriver: Err("first".to_owned()),
        content_address: Err("second".to_owned()),
        ..infos()
    };
    match describe().on_described(Ok(two_errors)) {
        Err(HandlePathError::GetPathInfos(error)) => assert_eq!(error, "first"),
        _ => panic!("expected an error"),
    }
    let step = describe().on_described(Ok(infos())).unwrap_or_else(|_| panic!());
    assert!(matches!(
        step.on_uploaded(Err("why".to_owned())),
        Err(HandlePathError::UploadNarInfo(_))
    ));
}

#[test]
fn byte_strings_are_ordered() {
    assert!(le(b"", b""));
    assert!(le(b"a", b"ab"));
    assert!(!le(b"b", b"ab"));
    let sorted = sort(vec![
        b"b".to_vec(),
        b"\xff".to_vec(),
        b"".to_vec(),
        b"ab".to_vec(),
        b"b".to_vec(),
    ]);
    assert_eq!(sorted, [&b""[..], b"ab", b"b", b"b", b"\xff"]);
    let mut set = ByteSet::new();
    assert!(set.insert(b"b"));
    assert!(set.insert(b"a"));
    assert!(!set.insert(b"b"));
    assert!(set.insert(b""));
    assert!(!set.insert(b"a"));
}

fn push(event_loop: &mut EventLoop, path: StorePath) {
    match event_loop.on_message(Ok(Event::PushStorePath(path))) {
        MessageAction::ComputeClosure(_) => {},
        other => panic!("unexpected: {other:?}"),
    }
}

fn checked(step: CheckExistence) -> InitiateUpload {
    match step.on_checked(Ok(PushDecision::Push)) {
        Ok(Checked::Push(step)) => step,
        _ => panic!("it is pushed"),
    }
}

fn initiate() -> InitiateUpload {
    checked(CheckExistence::new(path("a", "foo")))
}

fn pushed(num_bytes: u64) -> PathOutcome {
    PathOutcome::Pushed { num_bytes }
}

fn describe() -> cache_action::handle_store_path::DescribePath<()> {
    initiate()
        .on_initiated(Ok(()))
        .unwrap_or_else(|_| panic!())
        .on_streamed(writer(b"abc"), writer(b"file"), Ok(()))
        .unwrap_or_else(|_| panic!())
}

fn writer(bytes: &[u8]) -> HashAndCountWriter {
    let mut writer = HashAndCountWriter::new();
    writer.on_written(bytes, bytes.len());
    writer
}

fn infos() -> PathInfos {
    PathInfos {
        references: Ok(vec![basename("r", "ref")]),
        deriver: Ok(Some(basename("d", "drv"))),
        signatures: Ok(vec!["sig".to_owned()]),
        content_address: Ok(Some("ca".to_owned())),
    }
}

fn texts(paths: &[StorePath]) -> Vec<String> {
    paths.iter().map(|path| path.to_text()).collect()
}

fn basename(hash: &str, name: &str) -> StoreBasename {
    StoreBasename { hash: hash.to_owned(), name: name.to_owned() }
}

fn path(hash: &str, name: &str) -> StorePath {
    StorePath { store_dir: StoreDir::NixStore, basename: basename(hash, name) }
}

fn hex(bytes: &[u8]) -> String {
    bytes.iter().map(|byte| format!("{byte:02x}")).collect()
}
