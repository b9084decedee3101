use cache_action::any_cache::{
    AnyCache, AnyCacheError, AnyCacheKind, AnyCacheNarUploadState, Request, UploadNar,
};
use cache_action::http_reply::{append_body, describe_reply, HttpRequest, Method};
use cache_action::noop_cache::NoopCache;
use cache_action::protocol::StoreDir;
use cache_action::real_cache::{self, CacheConnectError, RealCache};
use cache_action::store_path::{NarInfoFileName, StoreBasename, StorePath};
use cache_action::sub60_cache::{
    on_body_read, on_etag_parsed, on_multiparts_parsed, on_narinfo_checked, on_part_header,
    on_parts_parsed, on_sent, unquoted, upload_part, Answer, CacheRequestError, NarMultiparts,
    PartUrls, QuotedFromStrError, Sub60Cache, Sub60CacheConnectError,
};
use cache_action::url_text;

#[test]
fn urls_of_a_cache() {
    let cache = cache();
    let name = narinfo_name();
    assert_eq!(
        cache.narinfo_url(&name).unwrap(),
        "https://cache.sub60.dev/some%20one/main/aaaa.narinfo"
    );
    assert_eq!(
        cache.narinfo_upload_url(&name, "id&1").unwrap(),
        "https://cache.sub60.dev/some%20one/main/aaaa.narinfo?upload_id=id%261"
    );
    assert_eq!(
        cache.nar_multiparts_url().unwrap(),
        "https://cache.sub60.dev/some%20one/main/nar-multiparts"
    );
    assert_eq!(
        cache.nar_multiparts_parts_url("a/b").unwrap(),
        "https://cache.sub60.dev/some%20one/main/nar-multiparts/a%2Fb/parts"
    );
    assert_eq!(
        cache.nar_multiparts_complete_url("id").unwrap(),
        "https://cache.sub60.dev/some%20one/main/nar-multiparts/id/complete"
    );
}

#[test]
fn urls_that_cannot_have_segments() {
    assert!(url_text::push("mailto:someone@example.org", "x").is_none());
    assert!(url_text::push("no url", "x").is_none());
    assert!(url_text::append_query_pair("no url", "x", "y").is_none());
    assert_eq!(
        url_text::parse("no url").unwrap_err(),
        "relative URL without a base"
    );
    assert_eq!(
        url_text::parse("HTTPS://Example.org").unwrap(),
        "https://example.org/"
    );
}

#[test]
fn requests_to_a_cache() {
    let cache = cache();
    let request = cache.has_narinfo(&narinfo_name()).unwrap();
    assert_eq!(request.method, Method::Head);
    let (request, body) = cache.initiate_nar_upload(&path()).unwrap();
    assert_eq!(request.method, Method::Post);
    assert_eq!(body, "aaaa-foo");
    let request = cache.request_part_urls("id").unwrap();
    assert_eq!(request.method, Method::Post);
    assert!(request.url.ends_with("/nar-multiparts/id/parts"));
    let request = cache.complete_nar_upload("id").unwrap();
    assert_eq!(request.method, Method::Post);
    assert!(request.url.ends_with("/nar-multiparts/id/complete"));
    let (request, size) =
        cache.upload_narinfo(&narinfo_name(), "id", "\u{e4}bc").unwrap();
    assert_eq!(request.method, Method::Put);
    assert!(request.url.ends_with("/aaaa.narinfo?upload_id=id"));
    assert_eq!(size, 4);
    let request = upload_part("https://example.org/1".to_owned());
    assert_eq!(request.method, Method::Put);
    assert_eq!(request.url, "https://example.org/1");
}

#[test]
fn answers_about_a_narinfo() {
    assert!(matches!(
        on_narinfo_checked(request(), Ok(200)),
        Answer::Ready(Ok(true))
    ));
    assert!(matches!(
        on_narinfo_checked(request(), Ok(404)),
        Answer::Ready(Ok(false))
    ));
    match on_narinfo_checked(request(), Ok(204)) {
        Answer::ReadBody(reply) => assert_eq!(
            reply.on_body(Ok(String::new())).to_text(),
            "unexpected response from HEAD https://example.org/: 204 No Content"
        ),
        Answer::Ready(_) => panic!("expected an unexpected reply"),
    }
    match on_narinfo_checked(request(), Err("refused".to_owned())) {
        Answer::Ready(Err(error)) => {
            assert_eq!(error.to_text(), "HTTP request failed: refused");
            assert_eq!(error.source().unwrap(), "refused");
        },
        _ => panic!("expected an error"),
    }
}

#[test]
fn answers_to_requests() {
    assert!(matches!(on_sent(request(), Ok(201), 7), Answer::Ready(Ok(7))));
    assert!(matches!(on_sent(request(), Ok(299), 7), Answer::Ready(Ok(7))));
    match on_sent(request(), Ok(500), 7) {
        Answer::ReadBody(reply) => {
            let error = reply.on_body(Ok("oh no".to_owned()));
            assert_eq!(
                error.to_text(),
                "unexpected response from HEAD https://example.org/: \
                 500 Internal Server Error: oh no"
            );
            assert!(error.source().is_none());
        },
        Answer::Ready(_) => panic!("expected an unexpected reply"),
    }
    match on_sent(request(), Ok(300), 7) {
        Answer::ReadBody(reply) => assert_eq!(
            reply.on_body(Err("gone".to_owned())).to_text(),
            "unexpected response from HEAD https://example.org/: \
             300 Multiple Choices: <couldn't read response body: gone>"
        ),
        Answer::Ready(_) => panic!("expected an unexpected reply"),
    }
    assert!(matches!(
        on_sent(request(), Err("refused".to_owned()), 7),
        Answer::Ready(Err(CacheRequestError::Request(_)))
    ));
}

#[test]
fn replies_are_described() {
    assert_eq!(
        describe_reply(Method::Put, "https://example.org/", "418 I'm a teapot"),
        "unexpected response from PUT https://example.org/: 418 I'm a teapot"
    );
    assert_eq!(append_body("text".to_owned(), ""), "text");
    assert_eq!(append_body("text".to_owned(), "body"), "text: body");
}

#[test]
fn status_without_a_reason() {
    match on_sent(request(), Ok(999), ()) {
        Answer::ReadBody(reply) => assert_eq!(
            reply.on_body(Ok(String::new())).to_text(),
            "unexpected response from HEAD https://example.org/: \
             999 <unknown status code>"
        ),
        Answer::Ready(_) => panic!("expected an unexpected reply"),
    }
}

#[test]
fn bodies_of_replies() {
    assert_eq!(on_body_read(Ok("text".to_owned())).unwrap(), "text");
    assert_eq!(
        on_body_read(Err("cut".to_owned())).unwrap_err().to_text(),
        "HTTP request failed: cut"
    );
    let state = on_multiparts_parsed(
        &path(),
        Ok(NarMultiparts {
            part_size: 5,
            part_urls: vec!["u1".to_owned(), "u2".to_owned()],
            upload_id: "id".to_owned(),
            expiration_ts: 77,
        }),
    )
    .unwrap();
    assert_eq!(state.part_size, 5);
    assert_eq!(state.part_urls, ["u1", "u2"]);
    assert_eq!(state.store_basename.to_text(), "aaaa-foo");
    assert_eq!(state.upload_id, "id");
    assert_eq!(state.urls_expiration_ts, 77);
    match on_multiparts_parsed(&path(), Err("bad".to_owned())) {
        Err(error) => assert_eq!(
            error.to_text(),
            "couldn't parse NAR multipart response body: bad"
        ),
        Ok(_) => panic!("expected an error"),
    }
    let parts = on_parts_parsed(Ok(PartUrls {
        urls: vec!["u3".to_owned()],
        expiration_ts: 78,
    }));
    assert!(matches!(parts, Ok(PartUrls { expiration_ts: 78, .. })));
    match on_parts_parsed(Err("bad".to_owned())) {
        Err(error) => assert_eq!(
            error.to_text(),
            "couldn't parse multipart parts response body: bad"
        ),
        Ok(_) => panic!("expected an error"),
    }
}

#[test]
fn etags_of_parts() {
    assert_eq!(on_part_header(request(), Some(b"\"abc\"")).unwrap(), "abc");
    assert_eq!(on_part_header(request(), Some(b"\"\"")).unwrap(), "");
    let missing = on_part_header(request(), None).unwrap_err();
    assert_eq!(
        missing.to_text(),
        "missing etag header from HEAD https://example.org/"
    );
    assert!(missing.source().is_none());
    let invalid = on_part_header(request(), Some(b"\"\xe4\"")).unwrap_err();
    assert_eq!(
        invalid.to_text(),
        "invalid etag header from HEAD https://example.org/: \
         failed to convert header to a str"
    );
    assert_eq!(invalid.source().unwrap(), "failed to convert header to a str");
    let no_header = on_part_header(request(), Some(b"\"\x00\"")).unwrap_err();
    assert_eq!(no_header.source().unwrap(), "failed to parse header value");
    for bad in [&b"abc"[..], b"\"abc", b"abc\"", b"\"", b""] {
        let error = on_part_header(request(), Some(bad)).unwrap_err();
        assert_eq!(
            error.to_text(),
            "couldn't parse Etag: value must be wrapped in double quotes"
        );
    }
    assert_eq!(on_etag_parsed(Ok("abc".to_owned())).unwrap(), "abc");
    let error = on_etag_parsed(Err("empty".to_owned())).unwrap_err();
    assert_eq!(error.to_text(), "couldn't parse Etag: empty");
    assert_eq!(error.source().unwrap(), "empty");
}

#[test]
fn quotes() {
    assert_eq!(unquoted("\"a\"b\"").unwrap(), "a\"b");
    let error = unquoted("a").unwrap_err();
    assert!(matches!(error, QuotedFromStrError::MissingQuotes));
    assert!(error.source().is_none());
    let error = QuotedFromStrError::Inner("inner".to_owned());
    assert_eq!(error.to_text(), "inner");
    assert_eq!(error.source().unwrap(), "inner");
}

#[test]
fn texts_of_other_request_errors() {
    let error = CacheRequestError::ReadNar("io".to_owned());
    assert_eq!(error.to_text(), "couldn't read NAR bytes: io");
    assert_eq!(error.source().unwrap(), "io");
    let error = CacheRequestError::TooManyNarParts;
    assert_eq!(error.to_text(), "NAR upload has too many multipart parts");
    assert!(error.source().is_none());
    let error = Sub60CacheConnectError::BuildHttpClient("tls".to_owned());
    assert_eq!(error.to_text(), "couldn't build HTTP client: tls");
}

#[test]
fn cache_that_takes_whole_nars() {
    let cache = RealCache::connect("someone", "main").unwrap();
    let request = cache.has_nar("abc.nar").unwrap();
    assert_eq!(request.method, Method::Head);
    assert_eq!(
        request.url,
        "https://cache.sub60.dev/someone/main/nar/abc.nar"
    );
    let request = cache.has_narinfo(&narinfo_name()).unwrap();
    assert_eq!(request.method, Method::Head);
    assert_eq!(
        request.url,
        "https://cache.sub60.dev/someone/main/aaaa.narinfo"
    );
    let request = cache.write_nar("abc.nar").unwrap();
    assert_eq!(request.method, Method::Put);
    let (request, size) = cache.write_narinfo(&narinfo_name(), "text").unwrap();
    assert_eq!(request.method, Method::Put);
    assert_eq!(size, 4);
}

#[test]
fn replies_of_a_cache_that_takes_whole_nars() {
    assert!(matches!(real_cache::on_checked(request(), Ok(200)), Ok(true)));
    assert!(matches!(real_cache::on_checked(request(), Ok(404)), Ok(false)));
    let error = real_cache::on_checked(request(), Ok(403)).unwrap_err();
    assert_eq!(
        error.to_text(),
        "unexpected response from HEAD https://example.org/: 403 Forbidden"
    );
    assert!(error.source().is_none());
    assert!(matches!(real_cache::on_written(request(), Ok(204), 9), Ok(9)));
    assert!(matches!(
        real_cache::on_written(request(), Ok(404), 9),
        Err(real_cache::CacheRequestError::UnexpectedResponse { status: 404, .. })
    ));
    let error =
        real_cache::on_written(request(), Err("cut".to_owned()), 9).unwrap_err();
    assert_eq!(error.to_text(), "HTTP request failed: cut");
    assert_eq!(error.source().unwrap(), "cut");
    let error = CacheConnectError::BuildHttpClient("tls".to_owned());
    assert_eq!(error.to_text(), "couldn't build HTTP client: tls");
}

#[test]
fn cache_that_holds_nothing() {
    let cache = NoopCache::default();
    assert!(!cache.has_narinfo(&narinfo_name()));
    assert_eq!(cache.upload_narinfo("\u{e4}"), 2);
}

#[test]
fn cache_of_any_kind() {
    let noop = AnyCache::new(AnyCacheKind::Noop, "someone", "main").unwrap();
    assert!(matches!(
        noop.has_narinfo(&narinfo_name()),
        Some(Request::Done(false))
    ));
    assert!(matches!(
        noop.initiate_nar_upload(&path()),
        Some((Request::Done(AnyCacheNarUploadState::Noop), _))
    ));
    assert!(matches!(
        noop.upload_nar(&AnyCacheNarUploadState::Noop),
        UploadNar::Discard
    ));
    assert!(matches!(
        noop.upload_narinfo(&narinfo_name(), "abc", &AnyCacheNarUploadState::Noop),
        Some((Request::Done(3), 3))
    ));

    let sub60 = AnyCache::new(AnyCacheKind::Sub60, "someone", "main").unwrap();
    match sub60.has_narinfo(&narinfo_name()) {
        Some(Request::Send(request)) => assert_eq!(
            request.url,
            "https://cache.sub60.dev/someone/main/aaaa.narinfo"
        ),
        _ => panic!("expected a request"),
    }
    match sub60.initiate_nar_upload(&path()) {
        Some((Request::Send(request), body)) => {
            assert_eq!(request.method, Method::Post);
            assert_eq!(body, "aaaa-foo");
        },
        _ => panic!("expected a request"),
    }
    let state = on_multiparts_parsed(
        &path(),
        Ok(NarMultiparts {
            part_size: 5,
            part_urls: vec![],
            upload_id: "id".to_owned(),
            expiration_ts: 0,
        }),
    )
    .unwrap();
    let state = AnyCacheNarUploadState::Sub60(state);
    match sub60.upload_narinfo(&narinfo_name(), "abc", &state) {
        Some((Request::Send(request), 3)) => {
            assert!(request.url.ends_with("upload_id=id"))
        },
        _ => panic!("expected a request"),
    }
    match sub60.upload_nar(&state) {
        UploadNar::InParts(upload) => assert!(upload.finish().to_vec().is_empty()),
        UploadNar::Discard => panic!("expected an upload in parts"),
    }

    let error = AnyCacheError::Sub60(CacheRequestError::TooManyNarParts);
    assert_eq!(error.to_text(), "Sub60 cache error");
    assert!(matches!(error.source(), CacheRequestError::TooManyNarParts));
}

fn cache() -> Sub60Cache {
    Sub60Cache::connect("some one", "main").unwrap()
}

fn narinfo_name() -> NarInfoFileName {
    NarInfoFileName::of(&path())
}

fn request() -> HttpRequest {
    HttpRequest { method: Method::Head, url: "https://example.org/".to_owned() }
}

fn path() -> StorePath {
    StorePath {
        store_dir: StoreDir::NixStore,
        basename: StoreBasename { hash: "aaaa".to_owned(), name: "foo".to_owned() },
    }
}
