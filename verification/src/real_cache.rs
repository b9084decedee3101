//! A cache to which a NAR is written in one piece, under a name of its own.

use vstd::prelude::*;
use vstd::utf8::*;

use crate::http_reply::{HttpRequest, Method};
use crate::store_path::NarInfoFileName;
use crate::sub60_cache::Sub60Cache;
use crate::{http_reply, store_path, sub60_cache, text, url_text};

verus! {

/// A cache at `cache.sub60.dev`, known by its URL.
pub struct RealCache {
    inner: Sub60Cache,
}

impl RealCache {
    /// The URL of the cache.
    pub closed spec fn url(self) -> Seq<char> {
        self.inner.url()
    }

    /// The cache with the given name, of the given owner.
    ///
    /// There is such a cache unless the names are too long for a URL.
    pub fn connect(owner: &str, name: &str) -> (connected: Option<Self>)
        ensures
            match connected {
                Some(connected) => url_text::pushed_all(
                    sub60_cache::base_url(),
                    seq![owner@, name@],
                ) == Some(connected.url()),
                None => url_text::pushed_all(sub60_cache::base_url(), seq![owner@, name@]) is None,
            },
            encode_utf8(owner@).len() + encode_utf8(name@).len() <= 0x0100_0000 ==> connected is Some,
    {
        match Sub60Cache::connect(owner, name) {
            Some(inner) => Some(RealCache { inner }),
            None => None,
        }
    }

    /// The URL of the NAR with the given file name.
    pub open spec fn nar_url_spec(self, nar_filename: Seq<char>) -> Option<Seq<char>> {
        url_text::pushed_all(self.url(), seq!["nar"@, nar_filename])
    }

    /// The URL of a NAR, unless it is too long.
    pub fn nar_url(&self, nar_filename: &str) -> (url: Option<String>)
        ensures
            match url {
                Some(url) => self.nar_url_spec(nar_filename@) == Some(url@),
                None => self.nar_url_spec(nar_filename@) is None,
            },
            encode_utf8(self.url()).len() + encode_utf8(nar_filename@).len() + 10
                <= url_text::MAX_URL_BYTES ==> url is Some,
    {
        proof {
            let segments = seq!["nar"@, nar_filename@];
            assert(segments.drop_first() =~= seq![nar_filename@]);
            assert(segments.drop_first().drop_first() =~= Seq::<Seq<char>>::empty());
            reveal_with_fuel(url_text::pushed_all, 3);
            reveal_strlit("nar");
            is_ascii_chars_encode_utf8("nar"@);
        }
        let nars: String = match self.inner.push("nar") {
            Some(url) => url,
            None => return None,
        };
        url_text::push(nars.as_str(), nar_filename)
    }

    /// The URL of a NARInfo.
    pub open spec fn narinfo_url_spec(self, store_hash: Seq<char>) -> Option<Seq<char>> {
        url_text::pushed(self.url(), store_path::narinfo_filename_text(store_hash))
    }

    /// The URL of a NARInfo, unless it is too long.
    pub fn narinfo_url(&self, name: &NarInfoFileName) -> (url: Option<String>)
        ensures
            match url {
                Some(url) => self.narinfo_url_spec(name.store_hash@) == Some(url@),
                None => self.narinfo_url_spec(name.store_hash@) is None,
            },
            url_text::fits(
                self.url(),
                store_path::narinfo_filename_text(name.store_hash@),
            ) ==> url is Some,
    {
        self.inner.narinfo_url(name)
    }

    /// The request for whether a NAR is there, unless its URL is too long.
    pub fn has_nar(&self, nar_filename: &str) -> (request: Option<HttpRequest>)
        ensures
            match request {
                Some(request) => request.method == Method::Head && self.nar_url_spec(nar_filename@)
                    == Some(request.url@),
                None => self.nar_url_spec(nar_filename@) is None,
            },
            encode_utf8(self.url()).len() + encode_utf8(nar_filename@).len() + 10
                <= url_text::MAX_URL_BYTES ==> request is Some,
    {
        match self.nar_url(nar_filename) {
            Some(url) => Some(HttpRequest { method: Method::Head, url }),
            None => None,
        }
    }

    /// The request for whether a NARInfo is there, unless its URL is too long.
    pub fn has_narinfo(&self, name: &NarInfoFileName) -> (request: Option<HttpRequest>)
        ensures
            match request {
                Some(request) => request.method == Method::Head && self.narinfo_url_spec(
                    name.store_hash@,
                ) == Some(request.url@),
                None => self.narinfo_url_spec(name.store_hash@) is None,
            },
            url_text::fits(
                self.url(),
                store_path::narinfo_filename_text(name.store_hash@),
            ) ==> request is Some,
    {
        match self.narinfo_url(name) {
            Some(url) => Some(HttpRequest { method: Method::Head, url }),
            None => None,
        }
    }

    /// The request to write a NAR, unless its URL is too long.
    pub fn write_nar(&self, nar_filename: &str) -> (request: Option<HttpRequest>)
        ensures
            match request {
                Some(request) => request.method == Method::Put && self.nar_url_spec(nar_filename@)
                    == Some(request.url@),
                None => self.nar_url_spec(nar_filename@) is None,
            },
            encode_utf8(self.url()).len() + encode_utf8(nar_filename@).len() + 10
                <= url_text::MAX_URL_BYTES ==> request is Some,
    {
        match self.nar_url(nar_filename) {
            Some(url) => Some(HttpRequest { method: Method::Put, url }),
            None => None,
        }
    }

    /// The request to write a NARInfo, given in its written form, and how many
    /// bytes it has, unless its URL is too long.
    pub fn write_narinfo(&self, name: &NarInfoFileName, narinfo: &str) -> (request: Option<
        (HttpRequest, u64),
    >)
        ensures
            match request {
                Some((request, size)) => request.method == Method::Put && self.narinfo_url_spec(
                    name.store_hash@,
                ) == Some(request.url@) && size == encode_utf8(narinfo@).len(),
                None => self.narinfo_url_spec(name.store_hash@) is None,
            },
            url_text::fits(
                self.url(),
                store_path::narinfo_filename_text(name.store_hash@),
            ) ==> request is Some,
    {
        match self.narinfo_url(name) {
            Some(url) => Some(
                (HttpRequest { method: Method::Put, url }, narinfo.as_bytes().len() as u64),
            ),
            None => None,
        }
    }
}

/// Why a request to the cache failed.
#[derive(Debug)]
pub enum CacheRequestError {
    Request(String),
    UnexpectedResponse { method: Method, status: u16, url: String },
}

/// What comes of a request, given the status of the reply to it, or why it
/// failed, and what the status stands for if it was expected.
pub open spec fn outcome<T>(
    request: HttpRequest,
    sent: Result<u16, String>,
    expected: Option<T>,
) -> Result<T, CacheRequestError> {
    match sent {
        Err(error) => Err(CacheRequestError::Request(error)),
        Ok(status) => match expected {
            Some(value) => Ok(value),
            None => Err(
                CacheRequestError::UnexpectedResponse {
                    method: request.method,
                    status,
                    url: request.url,
                },
            ),
        },
    }
}

/// Takes the status of the reply to a request for whether a file is there, or
/// why it failed.
pub fn on_checked(request: HttpRequest, sent: Result<u16, String>) -> (present: Result<
    bool,
    CacheRequestError,
>)
    ensures
        present == outcome(
            request,
            sent,
            match sent {
                Ok(status) => http_reply::presence(status),
                Err(_) => None,
            },
        ),
{
    match sent {
        Err(error) => Err(CacheRequestError::Request(error)),
        Ok(status) => match http_reply::is_present(status) {
            Some(present) => Ok(present),
            None => Err(
                CacheRequestError::UnexpectedResponse {
                    method: request.method,
                    status,
                    url: request.url,
                },
            ),
        },
    }
}

/// Takes the status of the reply to a request to write a file, which gives the
/// value if it is successful, or why it failed.
pub fn on_written<T>(request: HttpRequest, sent: Result<u16, String>, value: T) -> (written: Result<
    T,
    CacheRequestError,
>)
    ensures
        written == outcome(request, sent, sub60_cache::if_success(sent, value)),
        written == Ok::<T, CacheRequestError>(value) <==> (sent matches Ok(status) && 200 <= status
            <= 299),
        written is Ok <==> (sent matches Ok(status) && 200 <= status <= 299),
{
    match sent {
        Err(error) => Err(CacheRequestError::Request(error)),
        Ok(status) => if http_reply::is_success(status) {
            Ok(value)
        } else {
            Err(
                CacheRequestError::UnexpectedResponse {
                    method: request.method,
                    status,
                    url: request.url,
                },
            )
        },
    }
}

impl CacheRequestError {
    /// Whether the status of an unexpected reply is one.
    pub open spec fn wf(self) -> bool {
        self matches CacheRequestError::UnexpectedResponse { status, .. }
            ==> http_reply::valid_status(status)
    }

    /// The written form.
    pub open spec fn text(self) -> Seq<char> {
        match self {
            CacheRequestError::Request(error) => "HTTP request failed: "@ + error@,
            CacheRequestError::UnexpectedResponse { method, status, url } => {
                http_reply::unexpected_text(method, url@, status)
            },
        }
    }

    /// Returns the written form.
    pub fn to_text(&self) -> (text: String)
        requires
            self.wf(),
        ensures
            text@ == self.text(),
    {
        match self {
            CacheRequestError::Request(error) => text::concat2(
                "HTTP request failed: ",
                error.as_str(),
            ),
            CacheRequestError::UnexpectedResponse { method, status, url } => {
                http_reply::describe_unexpected(*method, url.as_str(), *status)
            },
        }
    }

    /// Returns the error that this one comes from, if there is one.
    pub fn source(&self) -> (source: Option<&String>)
        ensures
            match self {
                CacheRequestError::Request(error) => source == Some(error),
                CacheRequestError::UnexpectedResponse { .. } => source is None,
            },
    {
        match self {
            CacheRequestError::Request(error) => Some(error),
            CacheRequestError::UnexpectedResponse { .. } => None,
        }
    }
}

/// Why the cache could not be connected to.
#[derive(Debug)]
pub enum CacheConnectError {
    BuildHttpClient(String),
}

impl CacheConnectError {
    /// The written form.
    pub open spec fn text(self) -> Seq<char> {
        match self {
            CacheConnectError::BuildHttpClient(error) => "couldn't build HTTP client: "@ + error@,
        }
    }

    /// Returns the written form.
    pub fn to_text(&self) -> (text: String)
        ensures
            text@ == self.text(),
    {
        match self {
            CacheConnectError::BuildHttpClient(error) => text::concat2(
                "couldn't build HTTP client: ",
                error.as_str(),
            ),
        }
    }
}

/// Writing a file succeeds exactly if the status of the reply is from 200 to 299;
/// whether a file is there is known exactly if the status is 200, and it is, or
/// 404, and it is not. Any other status is an unexpected reply to this very
/// request.
pub proof fn law_status_decides<T>(request: HttpRequest, status: u16, value: T)
    ensures
        ({
            let sent = Ok::<u16, String>(status);
            let written = outcome(request, sent, sub60_cache::if_success(sent, value));
            let present = outcome(request, sent, http_reply::presence(status));
            let unexpected = CacheRequestError::UnexpectedResponse {
                method: request.method,
                status,
                url: request.url,
            };
            &&& 200 <= status <= 299 ==> written == Ok::<T, CacheRequestError>(value)
            &&& status < 200 || status > 299 ==> written == Err::<T, CacheRequestError>(unexpected)
            &&& status == 200 ==> present == Ok::<bool, CacheRequestError>(true)
            &&& status == 404 ==> present == Ok::<bool, CacheRequestError>(false)
            &&& status != 200 && status != 404 ==> present == Err::<bool, CacheRequestError>(
                unexpected,
            )
        }),
{
}

/// A request that failed has the error with which it did, whatever it was for, and
/// what is said about an error holds the whole of it.
pub proof fn law_failed_request_is_an_error<T>(
    request: HttpRequest,
    error: String,
    expected: Option<T>,
    other: CacheRequestError,
)
    ensures
        outcome(request, Err::<u16, String>(error), expected) == Err::<T, CacheRequestError>(
            CacheRequestError::Request(error),
        ),
        CacheRequestError::Request(error).text() == "HTTP request failed: "@ + error@,
        CacheConnectError::BuildHttpClient(error).text() == "couldn't build HTTP client: "@
            + error@,
        other matches CacheRequestError::UnexpectedResponse { method, status, url } ==> other.text()
            == http_reply::unexpected_text(method, url@, status),
{
}

/// A NAR has its URL below `nar`, and the NARInfo of a store hash directly below
/// that of the cache.
pub proof fn law_urls_of_files(cache: RealCache, nar_filename: Seq<char>, store_hash: Seq<char>)
    ensures
        cache.nar_url_spec(nar_filename) == match url_text::pushed(cache.url(), "nar"@) {
            Some(nars) => url_text::pushed(nars, nar_filename),
            None => None,
        },
        cache.narinfo_url_spec(store_hash) == url_text::pushed(
            cache.url(),
            store_hash + ".narinfo"@,
        ),
{
    let segments = seq!["nar"@, nar_filename];
    assert(segments.drop_first() =~= seq![nar_filename]);
    assert(segments.drop_first().drop_first() =~= Seq::<Seq<char>>::empty());
    reveal_with_fuel(url_text::pushed_all, 3);
}

} // verus!
