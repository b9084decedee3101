//! The cache served at `cache.sub60.dev`, to which NARs are uploaded in parts.

use vstd::prelude::*;
use vstd::utf8::*;

use crate::http_reply::{HttpRequest, Method};
use crate::store_path::{NarInfoFileName, StorePath};
use crate::upload_nar::{NarUploadState, NarUploadStateView};
use crate::{http_reply, store_path, text, url_text};

verus! {

/// A cache at `cache.sub60.dev`, known by its URL.
pub struct Sub60Cache {
    cache_url: String,
}

/// The normal form of the URL under which the caches are served.
pub open spec fn base_url() -> Seq<char> {
    "https://cache.sub60.dev/"@
}

impl Sub60Cache {
    #[verifier::type_invariant]
    spec fn has_web_url(self) -> bool {
        url_text::web_url(self.cache_url@)
    }

    /// The URL of the cache.
    pub closed spec fn url(self) -> Seq<char> {
        self.cache_url@
    }

    /// The cache with the given name, of the given user.
    ///
    /// There is such a cache unless the names are too long for a URL.
    pub fn connect(user: &str, cache: &str) -> (connected: Option<Self>)
        ensures
            match connected {
                Some(connected) => url_text::pushed_all(base_url(), seq![user@, cache@]) == Some(
                    connected.url(),
                ),
                None => url_text::pushed_all(base_url(), seq![user@, cache@]) is None,
            },
            encode_utf8(user@).len() + encode_utf8(cache@).len() <= 0x0100_0000 ==> connected is Some,
    {
        let ghost segments = seq![user@, cache@];
        proof {
            reveal_strlit("https://");
            reveal_strlit("https://cache.sub60.dev/");
            assert("https://"@.is_prefix_of("https://cache.sub60.dev/"@));
            vstd::utf8::is_ascii_chars_encode_utf8("https://cache.sub60.dev/"@);
            assert(segments.drop_first() =~= seq![cache@]);
            assert(segments.drop_first().drop_first() =~= Seq::<Seq<char>>::empty());
            reveal_with_fuel(url_text::pushed_all, 3);
        }
        let base: String = match url_text::parse("https://cache.sub60.dev") {
            Ok(base) => base,
            Err(_) => return None,
        };
        let with_user: String = match url_text::push(base.as_str(), user) {
            Some(url) => url,
            None => return None,
        };
        let cache_url: String = match url_text::push(with_user.as_str(), cache) {
            Some(url) => url,
            None => return None,
        };
        Some(Sub60Cache { cache_url })
    }

    /// The URL of the cache with one more path segment, unless it is too long.
    pub(crate) fn push(&self, segment: &str) -> (url: Option<String>)
        ensures
            match url {
                Some(url) => url_text::pushed(self.url(), segment@) == Some(url@),
                None => url_text::pushed(self.url(), segment@) is None,
            },
            url_text::fits(self.url(), segment@) ==> url is Some && url_text::web_url(url->0@)
                && encode_utf8(url->0@).len() <= encode_utf8(self.url()).len() + 1 + 3
                * encode_utf8(segment@).len(),
    {
        proof {
            use_type_invariant(self);
        }
        url_text::push(self.cache_url.as_str(), segment)
    }

    /// The URL of a NARInfo, unless it is too long.
    pub fn narinfo_url(&self, name: &NarInfoFileName) -> (url: Option<String>)
        ensures
            match url {
                Some(url) => self.narinfo_url_spec(name.store_hash@) == Some(url@),
                None => self.narinfo_url_spec(name.store_hash@) is None,
            },
            url_text::fits(
                self.url(),
                store_path::narinfo_filename_text(name.store_hash@),
            ) ==> url is Some && url_text::web_url(url->0@) && encode_utf8(url->0@).len()
                <= encode_utf8(self.url()).len() + 1 + 3 * encode_utf8(
                store_path::narinfo_filename_text(name.store_hash@),
            ).len(),
    {
        self.push(name.to_text().as_str())
    }

    /// The URL of the NARInfo of the given store hash.
    pub open spec fn narinfo_url_spec(self, store_hash: Seq<char>) -> Option<Seq<char>> {
        url_text::pushed(self.url(), store_path::narinfo_filename_text(store_hash))
    }

    /// The URL to upload a NARInfo to, unless it is too long.
    pub fn narinfo_upload_url(&self, name: &NarInfoFileName, upload_id: &str) -> (url: Option<
        String,
    >)
        ensures
            match url {
                Some(url) => self.narinfo_upload_url_spec(name.store_hash@, upload_id@) == Some(
                    url@,
                ),
                None => self.narinfo_upload_url_spec(name.store_hash@, upload_id@) is None,
            },
            encode_utf8(self.url()).len() + 3 * encode_utf8(
                store_path::narinfo_filename_text(name.store_hash@),
            ).len() + encode_utf8(upload_id@).len() + 10 <= url_text::MAX_URL_BYTES ==> url is Some,
    {
        proof {
            reveal_strlit("upload_id");
            is_ascii_chars_encode_utf8("upload_id"@);
            text::lemma_encode_concat("upload_id"@, upload_id@);
        }
        let url: String = match self.narinfo_url(name) {
            Some(url) => url,
            None => return None,
        };
        url_text::append_query_pair(url.as_str(), "upload_id", upload_id)
    }

    /// The URL to upload the NARInfo of the given store hash to.
    pub open spec fn narinfo_upload_url_spec(
        self,
        store_hash: Seq<char>,
        upload_id: Seq<char>,
    ) -> Option<Seq<char>> {
        match self.narinfo_url_spec(store_hash) {
            Some(url) => url_text::with_query_pair(url, "upload_id"@, upload_id),
            None => None,
        }
    }

    /// The URL to initiate the upload of a NAR at, unless it is too long.
    pub fn nar_multiparts_url(&self) -> (url: Option<String>)
        ensures
            match url {
                Some(url) => url_text::pushed(self.url(), "nar-multiparts"@) == Some(url@),
                None => url_text::pushed(self.url(), "nar-multiparts"@) is None,
            },
            encode_utf8(self.url()).len() + 14 <= url_text::MAX_URL_BYTES ==> url is Some
                && url_text::web_url(url->0@) && encode_utf8(url->0@).len() <= encode_utf8(
                self.url(),
            ).len() + 43,
    {
        proof {
            reveal_strlit("nar-multiparts");
            is_ascii_chars_encode_utf8("nar-multiparts"@);
        }
        self.push("nar-multiparts")
    }

    /// The URL of something that concerns the upload of a NAR.
    pub open spec fn multiparts_url_spec(self, upload_id: Seq<char>, what: Seq<char>) -> Option<
        Seq<char>,
    > {
        url_text::pushed_all(self.url(), seq!["nar-multiparts"@, upload_id, what])
    }

    /// The URL of something that concerns the upload of a NAR, unless it is too
    /// long.
    fn multiparts_url(&self, upload_id: &str, what: &str) -> (url: Option<String>)
        ensures
            match url {
                Some(url) => self.multiparts_url_spec(upload_id@, what@) == Some(url@),
                None => self.multiparts_url_spec(upload_id@, what@) is None,
            },
            encode_utf8(self.url()).len() + 3 * encode_utf8(upload_id@).len() + encode_utf8(
                what@,
            ).len() + 44 <= url_text::MAX_URL_BYTES ==> url is Some,
    {
        proof {
            let segments = seq!["nar-multiparts"@, upload_id@, what@];
            assert(segments.drop_first() =~= seq![upload_id@, what@]);
            assert(segments.drop_first().drop_first() =~= seq![what@]);
            assert(segments.drop_first().drop_first().drop_first() =~= Seq::<Seq<char>>::empty());
            reveal_with_fuel(url_text::pushed_all, 4);
        }
        let uploads: String = match self.nar_multiparts_url() {
            Some(url) => url,
            None => return None,
        };
        let upload: String = match url_text::push(uploads.as_str(), upload_id) {
            Some(url) => url,
            None => return None,
        };
        url_text::push(upload.as_str(), what)
    }

    /// The URL to ask for the URLs of parts at, unless it is too long.
    pub fn nar_multiparts_parts_url(&self, upload_id: &str) -> (url: Option<String>)
        ensures
            match url {
                Some(url) => self.multiparts_url_spec(upload_id@, "parts"@) == Some(url@),
                None => self.multiparts_url_spec(upload_id@, "parts"@) is None,
            },
            encode_utf8(self.url()).len() + 3 * encode_utf8(upload_id@).len() + 49
                <= url_text::MAX_URL_BYTES ==> url is Some,
    {
        proof {
            reveal_strlit("parts");
            is_ascii_chars_encode_utf8("parts"@);
        }
        self.multiparts_url(upload_id, "parts")
    }

    /// The URL to complete an upload at, unless it is too long.
    pub fn nar_multiparts_complete_url(&self, upload_id: &str) -> (url: Option<String>)
        ensures
            match url {
                Some(url) => self.multiparts_url_spec(upload_id@, "complete"@) == Some(url@),
                None => self.multiparts_url_spec(upload_id@, "complete"@) is None,
            },
            encode_utf8(self.url()).len() + 3 * encode_utf8(upload_id@).len() + 52
                <= url_text::MAX_URL_BYTES ==> url is Some,
    {
        proof {
            reveal_strlit("complete");
            is_ascii_chars_encode_utf8("complete"@);
        }
        self.multiparts_url(upload_id, "complete")
    }
}

/// Why a value in double quotes could not be read.
#[derive(Debug)]
pub enum QuotedFromStrError {
    MissingQuotes,
    Inner(String),
}

impl QuotedFromStrError {
    /// The written form.
    pub open spec fn text(self) -> Seq<char> {
        match self {
            QuotedFromStrError::MissingQuotes => "value must be wrapped in double quotes"@,
            QuotedFromStrError::Inner(error) => error@,
        }
    }

    /// Returns the written form.
    pub fn to_text(&self) -> (text: String)
        ensures
            text@ == self.text(),
    {
        match self {
            QuotedFromStrError::MissingQuotes => {
                "value must be wrapped in double quotes".to_owned()
            },
            QuotedFromStrError::Inner(error) => error.clone(),
        }
    }

    /// Returns the error that this one comes from, if there is one.
    pub fn source(&self) -> (source: Option<&String>)
        ensures
            match self {
                QuotedFromStrError::MissingQuotes => source is None,
                QuotedFromStrError::Inner(error) => source == Some(error),
            },
    {
        match self {
            QuotedFromStrError::MissingQuotes => None,
            QuotedFromStrError::Inner(error) => Some(error),
        }
    }
}

/// Whether a text starts with a double quote and ends with another.
pub open spec fn is_quoted(s: Seq<char>) -> bool {
    s.len() >= 2 && s[0] == '"' && s[s.len() - 1] == '"'
}

/// Returns what stands between the double quotes around a text, if it has them.
pub fn unquoted(s: &str) -> (inner: Result<String, QuotedFromStrError>)
    ensures
        match inner {
            Ok(inner) => is_quoted(s@) && inner@ == s@.subrange(1, s@.len() - 1),
            Err(error) => !is_quoted(s@) && error is MissingQuotes,
        },
{
    let len: usize = s.unicode_len();
    if len < 2 || s.get_char(0) != '"' || s.get_char(len - 1) != '"' {
        return Err(QuotedFromStrError::MissingQuotes);
    }
    Ok(s.substring_char(1, len - 1).to_owned())
}

/// What stands between the double quotes around a text is the text that they
/// were put around.
pub proof fn law_unquoting_undoes_quoting(s: Seq<char>)
    ensures
        ({
            let quoted = seq!['"'] + s + seq!['"'];
            is_quoted(quoted) && quoted.subrange(1, quoted.len() - 1) == s
        }),
{
    let quoted = seq!['"'] + s + seq!['"'];
    assert(quoted.subrange(1, quoted.len() - 1) =~= s);
}

/// Why a request to the cache failed.
#[derive(Debug)]
pub enum CacheRequestError {
    ParseEtag(QuotedFromStrError),
    InvalidResponseHeader { method: Method, url: String, header: String, source: String },
    MissingResponseHeader { method: Method, url: String, header: String },
    ParseNarMultipartsResponseBody(String),
    ParsePartsResponseBody(String),
    ReadNar(String),
    Request(String),
    TooManyNarParts,
    UnexpectedResponse { method: Method, status: u16, url: String, body: String },
}

impl CacheRequestError {
    /// Whether the status of an unexpected reply is one.
    pub open spec fn wf(self) -> bool {
        self matches CacheRequestError::UnexpectedResponse { status, .. }
            ==> http_reply::valid_status(status)
    }

    /// The written form.
    pub open spec fn text(self) -> Seq<char> {
        match self {
            CacheRequestError::ParseEtag(error) => "couldn't parse Etag: "@ + error.text(),
            CacheRequestError::InvalidResponseHeader { method, url, header, source } => "invalid "@
                + header@ + " header from "@ + method.text() + " "@ + url@ + ": "@ + source@,
            CacheRequestError::MissingResponseHeader { method, url, header } => "missing "@
                + header@ + " header from "@ + method.text() + " "@ + url@,
            CacheRequestError::ParseNarMultipartsResponseBody(error) => {
                "couldn't parse NAR multipart response body: "@ + error@
            },
            CacheRequestError::ParsePartsResponseBody(error) => {
                "couldn't parse multipart parts response body: "@ + error@
            },
            CacheRequestError::ReadNar(error) => "couldn't read NAR bytes: "@ + error@,
            CacheRequestError::Request(error) => "HTTP request failed: "@ + error@,
            CacheRequestError::TooManyNarParts => "NAR upload has too many multipart parts"@,
            CacheRequestError::UnexpectedResponse { method, status, url, body } => {
                http_reply::text_with_body(
                    http_reply::unexpected_text(method, url@, status),
                    body@,
                )
            },
        }
    }

    /// Returns the written form.
    pub fn to_text(&self) -> (text: String)
        requires
            self.wf(),
        ensures
            text@ == self.text(),
    {
        match self {
            CacheRequestError::ParseEtag(error) => text::concat2(
                "couldn't parse Etag: ",
                error.to_text().as_str(),
            ),
            CacheRequestError::InvalidResponseHeader { method, url, header, source } => {
                let mut text: String = text::concat3("invalid ", header.as_str(), " header from ");
                text.append(method.as_str());
                text.append(" ");
                text.append(url.as_str());
                text.append(": ");
                text.append(source.as_str());
                text
            },
            CacheRequestError::MissingResponseHeader { method, url, header } => {
                let mut text: String = text::concat3("missing ", header.as_str(), " header from ");
                text.append(method.as_str());
                text.append(" ");
                text.append(url.as_str());
                text
            },
            CacheRequestError::ParseNarMultipartsResponseBody(error) => text::concat2(
                "couldn't parse NAR multipart response body: ",
                error.as_str(),
            ),
            CacheRequestError::ParsePartsResponseBody(error) => text::concat2(
                "couldn't parse multipart parts response body: ",
                error.as_str(),
            ),
            CacheRequestError::ReadNar(error) => text::concat2(
                "couldn't read NAR bytes: ",
                error.as_str(),
            ),
            CacheRequestError::Request(error) => text::concat2(
                "HTTP request failed: ",
                error.as_str(),
            ),
            CacheRequestError::TooManyNarParts => {
                "NAR upload has too many multipart parts".to_owned()
            },
            CacheRequestError::UnexpectedResponse { method, status, url, body } => {
                let text: String = http_reply::describe_unexpected(
                    *method,
                    url.as_str(),
                    *status,
                );
                http_reply::append_body(text, body.as_str())
            },
        }
    }

    /// The text of the error that this one comes from, if there is one.
    pub open spec fn source_spec(self) -> Option<Seq<char>> {
        match self {
            CacheRequestError::ParseEtag(error) => Some(error.text()),
            CacheRequestError::InvalidResponseHeader { source, .. } => Some(source@),
            CacheRequestError::MissingResponseHeader { .. } => None,
            CacheRequestError::ParseNarMultipartsResponseBody(error) => Some(error@),
            CacheRequestError::ParsePartsResponseBody(error) => Some(error@),
            CacheRequestError::ReadNar(error) => Some(error@),
            CacheRequestError::Request(error) => Some(error@),
            CacheRequestError::TooManyNarParts => None,
            CacheRequestError::UnexpectedResponse { .. } => None,
        }
    }

    /// Returns the text of the error that this one comes from, if there is one.
    pub fn source(&self) -> (source: Option<String>)
        ensures
            match source {
                Some(source) => self.source_spec() == Some(source@),
                None => self.source_spec() is None,
            },
    {
        match self {
            CacheRequestError::ParseEtag(error) => Some(error.to_text()),
            CacheRequestError::InvalidResponseHeader { source, .. } => Some(source.clone()),
            CacheRequestError::MissingResponseHeader { .. } => None,
            CacheRequestError::ParseNarMultipartsResponseBody(error) => Some(error.clone()),
            CacheRequestError::ParsePartsResponseBody(error) => Some(error.clone()),
            CacheRequestError::ReadNar(error) => Some(error.clone()),
            CacheRequestError::Request(error) => Some(error.clone()),
            CacheRequestError::TooManyNarParts => None,
            CacheRequestError::UnexpectedResponse { .. } => None,
        }
    }

    /// The error about a reply that was not expected, given its body, or why
    /// the body could not be read.
    pub fn unexpected_response(
        method: Method,
        status: u16,
        url: String,
        body: Result<String, String>,
    ) -> (error: Self)
        ensures
            error matches CacheRequestError::UnexpectedResponse {
                method: error_method,
                status: error_status,
                url: error_url,
                body: error_body,
            } && error_method == method && error_status == status && error_url@ == url@
                && error_body@ == match body {
                Ok(body) => body@,
                Err(error) => "<couldn't read response body: "@ + error@ + ">"@,
            },
    {
        let body: String = match body {
            Ok(body) => body,
            Err(error) => text::concat3("<couldn't read response body: ", error.as_str(), ">"),
        };
        CacheRequestError::UnexpectedResponse { method, status, url, body }
    }
}

/// A reply that was not expected, whose body is still to be read.
#[derive(Debug)]
pub struct UnexpectedReply {
    pub method: Method,
    pub status: u16,
    pub url: String,
}

impl UnexpectedReply {
    /// The error about the reply, given its body, or why the body could not be
    /// read.
    pub fn on_body(self, body: Result<String, String>) -> (error: CacheRequestError)
        ensures
            error matches CacheRequestError::UnexpectedResponse {
                method: error_method,
                status: error_status,
                url: error_url,
                body: error_body,
            } && error_method == self.method && error_status == self.status && error_url@
                == self.url@ && error_body@ == match body {
                Ok(body) => body@,
                Err(error) => "<couldn't read response body: "@ + error@ + ">"@,
            },
    {
        CacheRequestError::unexpected_response(self.method, self.status, self.url, body)
    }
}

/// What came of a request.
pub enum Answer<T> {
    Ready(Result<T, CacheRequestError>),
    /// The body of the reply is still to be read, for
    /// [`UnexpectedReply::on_body`].
    ReadBody(UnexpectedReply),
}

/// What comes of a request, given the status of the reply to it, or why it
/// failed, and what the status stands for if it was expected.
pub open spec fn answer_spec<T>(
    request: HttpRequest,
    sent: Result<u16, String>,
    expected: Option<T>,
) -> Answer<T> {
    match sent {
        Err(error) => Answer::Ready(Err(CacheRequestError::Request(error))),
        Ok(status) => match expected {
            Some(value) => Answer::Ready(Ok(value)),
            None => Answer::ReadBody(
                UnexpectedReply { method: request.method, status, url: request.url },
            ),
        },
    }
}

/// What the given value is worth if a request was successful.
pub open spec fn if_success<T>(sent: Result<u16, String>, value: T) -> Option<T> {
    match sent {
        Ok(status) => if http_reply::success(status) {
            Some(value)
        } else {
            None
        },
        Err(_) => None,
    }
}

/// Takes the status of the reply to a request that gives the value if it is
/// successful, or why it failed.
pub fn on_sent<T>(request: HttpRequest, sent: Result<u16, String>, value: T) -> (answer: Answer<T>)
    ensures
        answer == answer_spec(request, sent, if_success(sent, value)),
        match sent {
            Ok(status) => if 200 <= status <= 299 {
                answer == Answer::Ready(Ok::<T, CacheRequestError>(value))
            } else {
                answer matches Answer::ReadBody(reply) && reply.method == request.method
                    && reply.status == status && reply.url == request.url
            },
            Err(error) => answer == Answer::Ready(
                Err::<T, CacheRequestError>(CacheRequestError::Request(error)),
            ),
        },
{
    match sent {
        Err(error) => Answer::Ready(Err(CacheRequestError::Request(error))),
        Ok(status) => if http_reply::is_success(status) {
            Answer::Ready(Ok(value))
        } else {
            Answer::ReadBody(UnexpectedReply { method: request.method, status, url: request.url })
        },
    }
}

/// Takes the status of the reply to a request for whether a NARInfo is there,
/// or why it failed.
pub fn on_narinfo_checked(request: HttpRequest, sent: Result<u16, String>) -> (answer: Answer<bool>)
    ensures
        answer == answer_spec(
            request,
            sent,
            match sent {
                Ok(status) => http_reply::presence(status),
                Err(_) => None,
            },
        ),
        match sent {
            Ok(200) => answer == Answer::Ready(Ok::<bool, CacheRequestError>(true)),
            Ok(404) => answer == Answer::Ready(Ok::<bool, CacheRequestError>(false)),
            Ok(status) => answer matches Answer::ReadBody(reply) && reply.method == request.method
                && reply.status == status && reply.url == request.url,
            Err(error) => answer == Answer::Ready(
                Err::<bool, CacheRequestError>(CacheRequestError::Request(error)),
            ),
        },
{
    match sent {
        Err(error) => Answer::Ready(Err(CacheRequestError::Request(error))),
        Ok(status) => match http_reply::is_present(status) {
            Some(present) => Answer::Ready(Ok(present)),
            None => Answer::ReadBody(
                UnexpectedReply { method: request.method, status, url: request.url },
            ),
        },
    }
}

/// Takes the body of the reply to a successful request, or why it could not be
/// read.
pub fn on_body_read(body: Result<String, String>) -> (read: Result<String, CacheRequestError>)
    ensures
        match body {
            Ok(text) => read == Ok::<String, CacheRequestError>(text),
            Err(error) => read == Err::<String, CacheRequestError>(
                CacheRequestError::Request(error),
            ),
        },
{
    match body {
        Ok(text) => Ok(text),
        Err(error) => Err(CacheRequestError::Request(error)),
    }
}

/// What the cache replies when it agrees to an upload.
pub struct NarMultiparts {
    pub part_size: u32,
    pub part_urls: Vec<String>,
    pub upload_id: String,
    /// When the URLs expire, in nanoseconds since the Unix epoch.
    pub expiration_ts: u128,
}

/// Takes what the cache replied when it agreed to the upload of the NAR of a
/// store path, or why the reply could not be parsed.
pub fn on_multiparts_parsed(store_path: &StorePath, parsed: Result<NarMultiparts, String>) -> (state:
    Result<NarUploadState, CacheRequestError>)
    ensures
        match parsed {
            Ok(body) => state is Ok && state->Ok_0@ == (NarUploadStateView {
                part_size: body.part_size,
                part_urls: store_path::text_views(body.part_urls@),
                store_basename: store_path@.basename,
                upload_id: body.upload_id@,
                urls_expiration_ts: body.expiration_ts,
            }),
            Err(error) => state == Err::<NarUploadState, CacheRequestError>(
                CacheRequestError::ParseNarMultipartsResponseBody(error),
            ),
        },
{
    match parsed {
        Ok(body) => Ok(
            NarUploadState::new(
                store_path,
                body.part_size,
                body.part_urls,
                body.upload_id,
                body.expiration_ts,
            ),
        ),
        Err(error) => Err(CacheRequestError::ParseNarMultipartsResponseBody(error)),
    }
}

/// The URLs of parts that the cache gave out.
pub struct PartUrls {
    pub urls: Vec<String>,
    /// When the URLs expire, in nanoseconds since the Unix epoch.
    pub expiration_ts: u128,
}

/// Takes the URLs of parts that the cache replied with, or why the reply could
/// not be parsed.
pub fn on_parts_parsed(parsed: Result<PartUrls, String>) -> (parts: Result<
    PartUrls,
    CacheRequestError,
>)
    ensures
        match parsed {
            Ok(urls) => parts == Ok::<PartUrls, CacheRequestError>(urls),
            Err(error) => parts == Err::<PartUrls, CacheRequestError>(
                CacheRequestError::ParsePartsResponseBody(error),
            ),
        },
{
    match parsed {
        Ok(urls) => Ok(urls),
        Err(error) => Err(CacheRequestError::ParsePartsResponseBody(error)),
    }
}

/// The request with which a part is uploaded to its URL.
pub fn upload_part(url: String) -> (request: HttpRequest)
    ensures
        request == (HttpRequest { method: Method::Put, url }),
{
    HttpRequest { method: Method::Put, url }
}

/// Takes the `ETag` header of the reply to the upload of a part, if it has one,
/// and returns what stands between the double quotes.
pub fn on_part_header(request: HttpRequest, header: Option<&[u8]>) -> (etag: Result<
    String,
    CacheRequestError,
>)
    ensures
        match header {
            None => etag matches Err(
                CacheRequestError::MissingResponseHeader { method, url, header: name },
            ) && method == request.method && url == request.url && name@ == "etag"@,
            Some(bytes) => match http_reply::header_text(bytes@) {
                Err(error) => etag matches Err(
                    CacheRequestError::InvalidResponseHeader { method, url, header: name, source },
                ) && method == request.method && url == request.url && name@ == "etag"@ && source@
                    == error,
                Ok(text) => if is_quoted(text) {
                    etag matches Ok(inner) && inner@ == text.subrange(1, text.len() - 1)
                } else {
                    etag == Err::<String, CacheRequestError>(
                        CacheRequestError::ParseEtag(QuotedFromStrError::MissingQuotes),
                    )
                },
            },
        },
{
    let bytes: &[u8] = match header {
        Some(bytes) => bytes,
        None => {
            return Err(
                CacheRequestError::MissingResponseHeader {
                    method: request.method,
                    url: request.url,
                    header: "etag".to_owned(),
                },
            );
        },
    };
    match http_reply::read_header(bytes) {
        Ok(text) => match unquoted(text.as_str()) {
            Ok(inner) => Ok(inner),
            Err(error) => Err(CacheRequestError::ParseEtag(error)),
        },
        Err(source) => Err(
            CacheRequestError::InvalidResponseHeader {
                method: request.method,
                url: request.url,
                header: "etag".to_owned(),
                source,
            },
        ),
    }
}

/// Takes an ETag, or why what stood between the double quotes is none.
pub fn on_etag_parsed(parsed: Result<String, String>) -> (etag: Result<String, CacheRequestError>)
    ensures
        match parsed {
            Ok(text) => etag == Ok::<String, CacheRequestError>(text),
            Err(error) => etag == Err::<String, CacheRequestError>(
                CacheRequestError::ParseEtag(QuotedFromStrError::Inner(error)),
            ),
        },
{
    match parsed {
        Ok(text) => Ok(text),
        Err(error) => Err(CacheRequestError::ParseEtag(QuotedFromStrError::Inner(error))),
    }
}

impl Sub60Cache {
    /// The request for whether a NARInfo is there, unless its URL is too long.
    pub fn has_narinfo(&self, name: &NarInfoFileName) -> (request: Option<HttpRequest>)
        ensures
            match request {
                Some(request) => request.method == Method::Head && self.narinfo_url_spec(
                    name.store_hash@,
                ) == Some(request.url@),
                None => self.narinfo_url_spec(name.store_hash@) is None,
            },
            url_text::fits(
                self.url(),
                store_path::narinfo_filename_text(name.store_hash@),
            ) ==> request is Some,
    {
        match self.narinfo_url(name) {
            Some(url) => Some(HttpRequest { method: Method::Head, url }),
            None => None,
        }
    }

    /// The request to initiate the upload of the NAR of a store path, and its
    /// body, unless its URL is too long.
    pub fn initiate_nar_upload(&self, store_path: &StorePath) -> (request: Option<
        (HttpRequest, String),
    >)
        ensures
            match request {
                Some((request, body)) => request.method == Method::Post && url_text::pushed(
                    self.url(),
                    "nar-multiparts"@,
                ) == Some(request.url@) && body@ == store_path@.basename.text(),
                None => url_text::pushed(self.url(), "nar-multiparts"@) is None,
            },
            encode_utf8(self.url()).len() + 14 <= url_text::MAX_URL_BYTES ==> request is Some,
    {
        match self.nar_multiparts_url() {
            Some(url) => Some(
                (HttpRequest { method: Method::Post, url }, store_path.basename.to_text()),
            ),
            None => None,
        }
    }

    /// The request for the URLs of parts, unless its URL is too long.
    pub fn request_part_urls(&self, upload_id: &str) -> (request: Option<HttpRequest>)
        ensures
            match request {
                Some(request) => request.method == Method::Post && self.multiparts_url_spec(
                    upload_id@,
                    "parts"@,
                ) == Some(request.url@),
                None => self.multiparts_url_spec(upload_id@, "parts"@) is None,
            },
            encode_utf8(self.url()).len() + 3 * encode_utf8(upload_id@).len() + 49
                <= url_text::MAX_URL_BYTES ==> request is Some,
    {
        match self.nar_multiparts_parts_url(upload_id) {
            Some(url) => Some(HttpRequest { method: Method::Post, url }),
            None => None,
        }
    }

    /// The request to complete an upload, unless its URL is too long.
    pub fn complete_nar_upload(&self, upload_id: &str) -> (request: Option<HttpRequest>)
        ensures
            match request {
                Some(request) => request.method == Method::Post && self.multiparts_url_spec(
                    upload_id@,
                    "complete"@,
                ) == Some(request.url@),
                None => self.multiparts_url_spec(upload_id@, "complete"@) is None,
            },
            encode_utf8(self.url()).len() + 3 * encode_utf8(upload_id@).len() + 52
                <= url_text::MAX_URL_BYTES ==> request is Some,
    {
        match self.nar_multiparts_complete_url(upload_id) {
            Some(url) => Some(HttpRequest { method: Method::Post, url }),
            None => None,
        }
    }

    /// The request to upload a NARInfo, given in its written form, and how many
    /// bytes it has, unless its URL is too long.
    pub fn upload_narinfo(&self, name: &NarInfoFileName, upload_id: &str, narinfo: &str) -> (request:
        Option<(HttpRequest, u64)>)
        ensures
            match request {
                Some((request, size)) => request.method == Method::Put
                    && self.narinfo_upload_url_spec(name.store_hash@, upload_id@) == Some(
                    request.url@,
                ) && size == encode_utf8(narinfo@).len(),
                None => self.narinfo_upload_url_spec(name.store_hash@, upload_id@) is None,
            },
            encode_utf8(self.url()).len() + 3 * encode_utf8(
                store_path::narinfo_filename_text(name.store_hash@),
            ).len() + encode_utf8(upload_id@).len() + 10 <= url_text::MAX_URL_BYTES
                ==> request is Some,
    {
        match self.narinfo_upload_url(name, upload_id) {
            Some(url) => Some(
                (HttpRequest { method: Method::Put, url }, narinfo.as_bytes().len() as u64),
            ),
            None => None,
        }
    }
}

/// Why a cache could not be connected to.
#[derive(Debug)]
pub enum Sub60CacheConnectError {
    BuildHttpClient(String),
}

impl Sub60CacheConnectError {
    /// The written form.
    pub open spec fn text(self) -> Seq<char> {
        match self {
            Sub60CacheConnectError::BuildHttpClient(error) => "couldn't build HTTP client: "@
                + error@,
        }
    }

    /// Returns the written form.
    pub fn to_text(&self) -> (text: String)
        ensures
            text@ == self.text(),
    {
        match self {
            Sub60CacheConnectError::BuildHttpClient(error) => text::concat2(
                "couldn't build HTTP client: ",
                error.as_str(),
            ),
        }
    }
}

/// A request gives its value exactly if the status of the reply is from 200 to
/// 299. Any other status is an unexpected reply to this very request, and a
/// request that failed has the error with which it did.
pub proof fn law_success_gives_the_value<T>(
    request: HttpRequest,
    sent: Result<u16, String>,
    value: T,
)
    ensures
        ({
            let answer = answer_spec(request, sent, if_success(sent, value));
            &&& answer == Answer::Ready(Ok::<T, CacheRequestError>(value)) <==> (sent matches Ok(
                status,
            ) && 200 <= status <= 299)
            &&& answer is ReadBody <==> (sent matches Ok(status) && (status < 200 || status > 299))
            &&& answer matches Answer::ReadBody(reply) ==> sent == Ok::<u16, String>(reply.status)
                && reply.method == request.method && reply.url == request.url
            &&& sent matches Err(error) ==> answer == Answer::Ready(
                Err::<T, CacheRequestError>(CacheRequestError::Request(error)),
            )
        }),
{
}

/// A cache has a NARInfo if it replies with the status 200, and has it not if it
/// replies with 404. Any other status is an unexpected reply to this very
/// request.
pub proof fn law_narinfo_is_there_or_not(request: HttpRequest, status: u16)
    ensures
        ({
            let answer = answer_spec(
                request,
                Ok::<u16, String>(status),
                http_reply::presence(status),
            );
            &&& answer == Answer::Ready(Ok::<bool, CacheRequestError>(true)) <==> status == 200
            &&& answer == Answer::Ready(Ok::<bool, CacheRequestError>(false)) <==> status == 404
            &&& answer is ReadBody <==> status != 200 && status != 404
            &&& answer matches Answer::ReadBody(reply) ==> reply.status == status && reply.method
                == request.method && reply.url == request.url
        }),
{
}

/// The NARInfo of a store hash is uploaded where it is looked for, with the ID of
/// the upload in the query, and what concerns an upload has a URL of its own,
/// below that at which uploads are initiated.
pub proof fn law_urls_of_a_cache(
    cache: Sub60Cache,
    store_hash: Seq<char>,
    upload_id: Seq<char>,
    what: Seq<char>,
)
    ensures
        cache.narinfo_url_spec(store_hash) == url_text::pushed(
            cache.url(),
            store_hash + ".narinfo"@,
        ),
        cache.narinfo_upload_url_spec(store_hash, upload_id) == match cache.narinfo_url_spec(
            store_hash,
        ) {
            Some(url) => url_text::with_query_pair(url, "upload_id"@, upload_id),
            None => None,
        },
        cache.multiparts_url_spec(upload_id, what) == match url_text::pushed(
            cache.url(),
            "nar-multiparts"@,
        ) {
            Some(uploads) => match url_text::pushed(uploads, upload_id) {
                Some(upload) => url_text::pushed(upload, what),
                None => None,
            },
            None => None,
        },
        base_url() == "https://cache.sub60.dev/"@,
{
    let segments = seq!["nar-multiparts"@, upload_id, what];
    assert(segments.drop_first() =~= seq![upload_id, what]);
    assert(segments.drop_first().drop_first() =~= seq![what]);
    assert(segments.drop_first().drop_first().drop_first() =~= Seq::<Seq<char>>::empty());
    reveal_with_fuel(url_text::pushed_all, 4);
}

/// A text is in double quotes exactly if it is some text with a double quote
/// before it and one after it.
pub proof fn law_quoted_texts_have_quotes(s: Seq<char>)
    ensures
        is_quoted(s) <==> exists|inner: Seq<char>| s == #[trigger] (seq!['"'] + inner) + seq!['"'],
{
    if is_quoted(s) {
        let inner = s.subrange(1, s.len() - 1);
        assert(s =~= (seq!['"'] + inner) + seq!['"']);
    }
    if exists|inner: Seq<char>| s == #[trigger] (seq!['"'] + inner) + seq!['"'] {
        let inner = choose|inner: Seq<char>| s == #[trigger] (seq!['"'] + inner) + seq!['"'];
        law_unquoting_undoes_quoting(inner);
    }
}

/// Where an error comes from another one, what is said about it ends in what is
/// said about the other; and what is said about a reply ends in its body.
pub proof fn law_errors_tell_their_source(error: CacheRequestError)
    ensures
        error.source_spec() matches Some(source) ==> source.is_suffix_of(error.text()),
        error.source_spec() is None <==> error is MissingResponseHeader || error is TooManyNarParts
            || error is UnexpectedResponse,
        error matches CacheRequestError::UnexpectedResponse { body, .. } ==> body@.is_suffix_of(
            error.text(),
        ),
        match error {
            CacheRequestError::ParseEtag(QuotedFromStrError::Inner(source)) => error.source_spec()
                == Some(source@),
            CacheRequestError::InvalidResponseHeader { source, .. } => error.source_spec() == Some(
                source@,
            ),
            CacheRequestError::ParseNarMultipartsResponseBody(source) => error.source_spec()
                == Some(source@),
            CacheRequestError::ParsePartsResponseBody(source) => error.source_spec() == Some(
                source@,
            ),
            CacheRequestError::ReadNar(source) => error.source_spec() == Some(source@),
            CacheRequestError::Request(source) => error.source_spec() == Some(source@),
            _ => true,
        },
{
    let text = error.text();
    if let Some(source) = error.source_spec() {
        assert(text.subrange(text.len() - source.len(), text.len() as int) =~= source);
    }
    if let CacheRequestError::UnexpectedResponse { body, .. } = error {
        assert(text.subrange(text.len() - body@.len(), text.len() as int) =~= body@);
    }
}

/// What is said about a failed request names the header, the method and the URL
/// that are concerned, and the whole of what is wrong.
pub proof fn law_request_errors_are_told_in_full(error: CacheRequestError, reason: String)
    ensures
        error matches CacheRequestError::InvalidResponseHeader { method, url, header, source }
            ==> error.text() == "invalid "@ + header@ + " header from "@ + method.text() + " "@
            + url@ + ": "@ + source@,
        error matches CacheRequestError::MissingResponseHeader { method, url, header }
            ==> error.text() == "missing "@ + header@ + " header from "@ + method.text() + " "@
            + url@,
        error matches CacheRequestError::UnexpectedResponse { method, status, url, body }
            ==> error.text() == http_reply::text_with_body(
            http_reply::unexpected_text(method, url@, status),
            body@,
        ),
        CacheRequestError::ParseEtag(QuotedFromStrError::MissingQuotes).text()
            == "couldn't parse Etag: "@ + "value must be wrapped in double quotes"@,
        CacheRequestError::ParseEtag(QuotedFromStrError::Inner(reason)).text()
            == "couldn't parse Etag: "@ + reason@,
        CacheRequestError::ParseNarMultipartsResponseBody(reason).text()
            == "couldn't parse NAR multipart response body: "@ + reason@,
        CacheRequestError::ParsePartsResponseBody(reason).text()
            == "couldn't parse multipart parts response body: "@ + reason@,
        CacheRequestError::ReadNar(reason).text() == "couldn't read NAR bytes: "@ + reason@,
        CacheRequestError::Request(reason).text() == "HTTP request failed: "@ + reason@,
        CacheRequestError::TooManyNarParts.text() == "NAR upload has too many multipart parts"@,
        Sub60CacheConnectError::BuildHttpClient(reason).text() == "couldn't build HTTP client: "@
            + reason@,
{
}

} // verus!
