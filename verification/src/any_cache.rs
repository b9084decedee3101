//! A cache of a kind that is chosen when the program starts.

use vstd::prelude::*;
use vstd::utf8::*;

use crate::http_reply::{HttpRequest, Method};
use crate::noop_cache::NoopCache;
use crate::store_path::{NarInfoFileName, StorePath};
use crate::sub60_cache::{CacheRequestError, Sub60Cache};
use crate::upload_nar::{NarUpload, NarUploadState};
use crate::{store_path, sub60_cache, url_text};

verus! {

/// A cache of one of the kinds that there are.
pub enum AnyCache {
    Noop(NoopCache),
    Sub60(Sub60Cache),
}

/// The kinds of caches.
#[derive(Clone, Copy, Debug, PartialEq, Eq, Structural)]
pub enum AnyCacheKind {
    Noop,
    Sub60,
}

/// The state of the upload of a NAR to a cache of one of the kinds.
pub enum AnyCacheNarUploadState {
    Noop,
    Sub60(NarUploadState),
}

/// What a request to a cache takes.
pub enum Request<T> {
    /// Nothing: this is what comes of it.
    Done(T),
    /// This is to be sent.
    Send(HttpRequest),
}

/// What uploading a NAR takes.
pub enum UploadNar {
    /// Its bytes are to be read, and thrown away.
    Discard,
    /// It is to be uploaded in parts.
    InParts(NarUpload),
}

impl AnyCache {
    /// The kind of the cache.
    pub open spec fn kind(self) -> AnyCacheKind {
        match self {
            AnyCache::Noop(_) => AnyCacheKind::Noop,
            AnyCache::Sub60(_) => AnyCacheKind::Sub60,
        }
    }

    /// The cache of the given kind. One at `cache.sub60.dev` is known by a user
    /// and a name, and there is such a cache unless they are too long for a URL.
    pub fn new(kind: AnyCacheKind, user: &str, cache: &str) -> (connected: Option<Self>)
        ensures
            kind == AnyCacheKind::Noop ==> connected is Some && connected->0.kind() == kind,
            kind == AnyCacheKind::Sub60 ==> match connected {
                Some(AnyCache::Sub60(cache_at)) => url_text::pushed_all(
                    sub60_cache::base_url(),
                    seq![user@, cache@],
                ) == Some(cache_at.url()),
                Some(AnyCache::Noop(_)) => false,
                None => url_text::pushed_all(sub60_cache::base_url(), seq![user@, cache@]) is None,
            },
            encode_utf8(user@).len() + encode_utf8(cache@).len() <= 0x0100_0000
                ==> connected is Some,
    {
        match kind {
            AnyCacheKind::Noop => Some(AnyCache::Noop(NoopCache::default())),
            AnyCacheKind::Sub60 => match Sub60Cache::connect(user, cache) {
                Some(cache) => Some(AnyCache::Sub60(cache)),
                None => None,
            },
        }
    }

    /// What it takes to know whether a NARInfo is there, unless a URL is too
    /// long.
    pub fn has_narinfo(&self, name: &NarInfoFileName) -> (request: Option<Request<bool>>)
        ensures
            match self {
                AnyCache::Noop(_) => request == Some(Request::<bool>::Done(false)),
                AnyCache::Sub60(cache) => match request {
                    Some(Request::Send(request)) => request.method == Method::Head
                        && cache.narinfo_url_spec(name.store_hash@) == Some(request.url@),
                    Some(Request::Done(_)) => false,
                    None => cache.narinfo_url_spec(name.store_hash@) is None,
                },
            },
            self matches AnyCache::Sub60(cache) && url_text::fits(
                cache.url(),
                store_path::narinfo_filename_text(name.store_hash@),
            ) ==> request is Some,
    {
        match self {
            AnyCache::Noop(cache) => Some(Request::Done(cache.has_narinfo(name))),
            AnyCache::Sub60(cache) => match cache.has_narinfo(name) {
                Some(request) => Some(Request::Send(request)),
                None => None,
            },
        }
    }

    /// What it takes to initiate the upload of the NAR of a store path, with
    /// the body of the request, unless a URL is too long.
    pub fn initiate_nar_upload(&self, store_path: &StorePath) -> (request: Option<
        (Request<AnyCacheNarUploadState>, String),
    >)
        ensures
            match self {
                AnyCache::Noop(_) => request matches Some((request, body)) && request
                    == Request::Done(AnyCacheNarUploadState::Noop) && body@.len() == 0,
                AnyCache::Sub60(cache) => match request {
                    Some((Request::Send(request), body)) => request.method == Method::Post
                        && url_text::pushed(cache.url(), "nar-multiparts"@) == Some(request.url@)
                        && body@ == store_path@.basename.text(),
                    Some((Request::Done(_), _)) => false,
                    None => url_text::pushed(cache.url(), "nar-multiparts"@) is None,
                },
            },
            self matches AnyCache::Sub60(cache) && encode_utf8(cache.url()).len() + 14
                <= url_text::MAX_URL_BYTES ==> request is Some,
    {
        match self {
            AnyCache::Noop(_) => Some(
                (Request::Done(AnyCacheNarUploadState::Noop), String::new()),
            ),
            AnyCache::Sub60(cache) => match cache.initiate_nar_upload(store_path) {
                Some((request, body)) => Some((Request::Send(request), body)),
                None => None,
            },
        }
    }

    /// What it takes to upload a NAR. The state is one that the cache gave out.
    pub fn upload_nar(&self, state: &AnyCacheNarUploadState) -> (upload: UploadNar)
        requires
            self.kind() == state.kind(),
        ensures
            match state {
                AnyCacheNarUploadState::Noop => upload is Discard,
                AnyCacheNarUploadState::Sub60(_) => upload matches UploadNar::InParts(upload)
                    && upload.part_number() == 1 && upload.etags() == Seq::<Seq<char>>::empty(),
            },
    {
        match state {
            AnyCacheNarUploadState::Noop => UploadNar::Discard,
            AnyCacheNarUploadState::Sub60(_) => UploadNar::InParts(NarUpload::new()),
        }
    }

    /// What it takes to upload a NARInfo, given in its written form, with how
    /// many bytes it has, unless a URL is too long. The state is one that the
    /// cache gave out.
    pub fn upload_narinfo(
        &self,
        name: &NarInfoFileName,
        narinfo: &str,
        state: &AnyCacheNarUploadState,
    ) -> (request: Option<(Request<u64>, u64)>)
        requires
            self.kind() == state.kind(),
        ensures
            match (self, state) {
                (AnyCache::Sub60(cache), AnyCacheNarUploadState::Sub60(state)) => match request {
                    Some((Request::Send(request), size)) => request.method == Method::Put
                        && cache.narinfo_upload_url_spec(name.store_hash@, state.upload_id@)
                        == Some(request.url@) && size == encode_utf8(narinfo@).len(),
                    Some((Request::Done(_), _)) => false,
                    None => cache.narinfo_upload_url_spec(
                        name.store_hash@,
                        state.upload_id@,
                    ) is None,
                },
                _ => request matches Some((Request::Done(done), size)) && done == size && size
                    == encode_utf8(narinfo@).len(),
            },
            (self, state) matches (AnyCache::Sub60(cache), AnyCacheNarUploadState::Sub60(state))
                && encode_utf8(cache.url()).len() + 3 * encode_utf8(
                store_path::narinfo_filename_text(name.store_hash@),
            ).len() + encode_utf8(state.upload_id@).len() + 10 <= url_text::MAX_URL_BYTES
                ==> request is Some,
    {
        match (self, state) {
            (AnyCache::Sub60(cache), AnyCacheNarUploadState::Sub60(state)) => {
                match cache.upload_narinfo(name, state.upload_id.as_str(), narinfo) {
                    Some((request, size)) => Some((Request::Send(request), size)),
                    None => None,
                }
            },
            (AnyCache::Noop(cache), _) => {
                let size: u64 = cache.upload_narinfo(narinfo);
                Some((Request::Done(size), size))
            },
            (AnyCache::Sub60(_), AnyCacheNarUploadState::Noop) => None,
        }
    }
}

impl AnyCacheNarUploadState {
    /// The kind of the cache that gave out the state.
    pub open spec fn kind(self) -> AnyCacheKind {
        match self {
            AnyCacheNarUploadState::Noop => AnyCacheKind::Noop,
            AnyCacheNarUploadState::Sub60(_) => AnyCacheKind::Sub60,
        }
    }
}

/// Why a request to a cache failed. Those to a cache that holds nothing do not.
#[derive(Debug)]
pub enum AnyCacheError {
    Sub60(CacheRequestError),
}

impl AnyCacheError {
    /// The written form.
    pub open spec fn text(self) -> Seq<char> {
        match self {
            AnyCacheError::Sub60(_) => "Sub60 cache error"@,
        }
    }

    /// Returns the written form.
    pub fn to_text(&self) -> (text: String)
        ensures
            text@ == self.text(),
    {
        match self {
            AnyCacheError::Sub60(_) => "Sub60 cache error".to_owned(),
        }
    }

    /// Returns the error that this one comes from.
    pub fn source(&self) -> (source: &CacheRequestError)
        ensures
            *self == AnyCacheError::Sub60(*source),
    {
        match self {
            AnyCacheError::Sub60(error) => error,
        }
    }
}

/// A cache that holds nothing and one at `cache.sub60.dev` are of different kinds,
/// and so are the states of uploads that they give out.
pub proof fn law_kinds_are_told_apart(
    cache: AnyCache,
    state: AnyCacheNarUploadState,
    error: AnyCacheError,
)
    ensures
        cache is Noop <==> cache.kind() == AnyCacheKind::Noop,
        cache is Sub60 <==> cache.kind() == AnyCacheKind::Sub60,
        cache.kind() == state.kind() <==> (cache is Noop <==> state is Noop),
        error.text() == "Sub60 cache error"@,
{
}

} // verus!
