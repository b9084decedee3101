//! Handling a store path: checking whether it is already cached, then uploading
//! its NAR, in compressed form, and its NARInfo if it isn't.
//!
//! The steps follow each other as types: each takes the outcome of what was
//! done for it, and gives the next.

use vstd::prelude::*;

use crate::event_loop::{HandlePathError, HandlePathErrorView, PathOutcome};
use crate::store_path::{
    CompressionAlgorithm,
    NarInfo,
    NarInfoFileName,
    StoreBasename,
    StoreBasenameView,
    StorePath,
    StorePathView,
};
use crate::{hash, store_path};

verus! {

/// The contents of an answer that may be an error.
pub open spec fn answer_view<T>(answer: Result<T, String>) -> Result<T, Seq<char>> {
    match answer {
        Ok(value) => Ok(value),
        Err(error) => Err(error@),
    }
}

/// What is done about a store path.
#[derive(Clone, Copy, Debug, PartialEq, Eq, Structural)]
pub enum PushDecision {
    /// It is pushed.
    Push,
    /// It is skipped: the cache has it.
    CacheHas,
    /// It is skipped: an upstream cache has it.
    UpstreamHas,
}

/// Whether a store path is to be pushed, given whether the cache has its
/// NARInfo, and whether one of the upstream caches has it. A cache that could
/// not be asked does not matter if an upstream cache has the NARInfo.
pub open spec fn should_push(cache: Result<bool, Seq<char>>, upstream: bool) -> Result<
    bool,
    Seq<char>,
> {
    if upstream {
        Ok(false)
    } else {
        match cache {
            Ok(has_narinfo) => Ok(!has_narinfo),
            Err(error) => Err(error),
        }
    }
}

/// What is known while the cache and the upstream caches are asked, at the same
/// time, whether they have the NARInfo of a store path.
pub enum PushCheck {
    /// Neither has answered.
    Waiting,
    /// The cache doesn't have the NARInfo.
    CacheHasNot,
    /// The cache couldn't be asked.
    CacheFailed(String),
    /// No upstream cache has the NARInfo.
    UpstreamHasNot,
}

/// The contents of a [`PushCheck`].
#[verifier::ext_equal]
pub enum PushCheckView {
    Waiting,
    CacheHasNot,
    CacheFailed(Seq<char>),
    UpstreamHasNot,
}

/// What is known once the cache or the upstream caches have answered.
pub enum PushProgress {
    /// What is done about the store path.
    Decided(Result<PushDecision, String>),
    /// The other answer is needed.
    Undecided(PushCheck),
}

/// The contents of a [`PushProgress`].
#[verifier::ext_equal]
pub enum PushProgressView {
    Decided(Result<PushDecision, Seq<char>>),
    Undecided(PushCheckView),
}

impl View for PushCheck {
    type V = PushCheckView;

    open spec fn view(&self) -> PushCheckView {
        match self {
            PushCheck::Waiting => PushCheckView::Waiting,
            PushCheck::CacheHasNot => PushCheckView::CacheHasNot,
            PushCheck::CacheFailed(error) => PushCheckView::CacheFailed(error@),
            PushCheck::UpstreamHasNot => PushCheckView::UpstreamHasNot,
        }
    }
}

impl View for PushProgress {
    type V = PushProgressView;

    open spec fn view(&self) -> PushProgressView {
        match self {
            PushProgress::Decided(decision) => PushProgressView::Decided(answer_view(*decision)),
            PushProgress::Undecided(check) => PushProgressView::Undecided(check@),
        }
    }
}

impl PushCheckView {
    /// Whether the cache has yet to answer.
    pub open spec fn awaits_cache(self) -> bool {
        self is Waiting || self is UpstreamHasNot
    }

    /// Whether the upstream caches have yet to answer.
    pub open spec fn awaits_upstream(self) -> bool {
        !(self is UpstreamHasNot)
    }

    /// What is known once the cache has answered.
    pub open spec fn cache_answered(self, answer: Result<bool, Seq<char>>) -> PushProgressView {
        match answer {
            Ok(true) => PushProgressView::Decided(Ok(PushDecision::CacheHas)),
            Ok(false) => if self is UpstreamHasNot {
                PushProgressView::Decided(Ok(PushDecision::Push))
            } else {
                PushProgressView::Undecided(PushCheckView::CacheHasNot)
            },
            Err(error) => if self is UpstreamHasNot {
                PushProgressView::Decided(Err(error))
            } else {
                PushProgressView::Undecided(PushCheckView::CacheFailed(error))
            },
        }
    }

    /// What is known once the upstream caches have answered.
    pub open spec fn upstream_answered(self, has_narinfo: bool) -> PushProgressView {
        if has_narinfo {
            PushProgressView::Decided(Ok(PushDecision::UpstreamHas))
        } else {
            match self {
                PushCheckView::CacheHasNot => PushProgressView::Decided(Ok(PushDecision::Push)),
                PushCheckView::CacheFailed(error) => PushProgressView::Decided(Err(error)),
                _ => PushProgressView::Undecided(PushCheckView::UpstreamHasNot),
            }
        }
    }
}

impl PushCheck {
    /// Takes the answer of the cache.
    pub fn on_cache_answer(self, answer: Result<bool, String>) -> (progress: PushProgress)
        requires
            self@.awaits_cache(),
        ensures
            progress@ == self@.cache_answered(answer_view(answer)),
    {
        match self {
            PushCheck::UpstreamHasNot => match answer {
                Ok(true) => PushProgress::Decided(Ok(PushDecision::CacheHas)),
                Ok(false) => PushProgress::Decided(Ok(PushDecision::Push)),
                Err(error) => PushProgress::Decided(Err(error)),
            },
            _ => match answer {
                Ok(true) => PushProgress::Decided(Ok(PushDecision::CacheHas)),
                Ok(false) => PushProgress::Undecided(PushCheck::CacheHasNot),
                Err(error) => PushProgress::Undecided(PushCheck::CacheFailed(error)),
            },
        }
    }

    /// Takes the answer of the upstream caches.
    pub fn on_upstream_answer(self, has_narinfo: bool) -> (progress: PushProgress)
        requires
            self@.awaits_upstream(),
        ensures
            progress@ == self@.upstream_answered(has_narinfo),
    {
        if has_narinfo {
            return PushProgress::Decided(Ok(PushDecision::UpstreamHas));
        }
        match self {
            PushCheck::CacheHasNot => PushProgress::Decided(Ok(PushDecision::Push)),
            PushCheck::CacheFailed(error) => PushProgress::Decided(Err(error)),
            _ => PushProgress::Undecided(PushCheck::UpstreamHasNot),
        }
    }
}

/// Whether a decision is right, given what the cache and the upstream caches
/// answer: it pushes exactly if [`should_push`] says so, and skips for a reason
/// that holds.
pub open spec fn decides(
    decision: Result<PushDecision, Seq<char>>,
    cache: Result<bool, Seq<char>>,
    upstream: bool,
) -> bool {
    match decision {
        Ok(PushDecision::Push) => should_push(cache, upstream) == Ok::<bool, Seq<char>>(true),
        Ok(PushDecision::CacheHas) => cache == Ok::<bool, Seq<char>>(true),
        Ok(PushDecision::UpstreamHas) => upstream,
        Err(error) => should_push(cache, upstream) == Err::<bool, Seq<char>>(error),
    }
}

/// Whether a store path is pushed depends on what the cache and the upstream
/// caches answer, and not on which of them answers first; and a decision that
/// is taken before both have answered is right whatever the other answers. Why a
/// store path is skipped depends on the order only if both have it.
pub proof fn law_order_of_answers_does_not_matter(cache: Result<bool, Seq<char>>, upstream: bool)
    ensures
        match PushCheckView::Waiting.cache_answered(cache) {
            PushProgressView::Decided(decision) => decides(decision, cache, upstream),
            PushProgressView::Undecided(check) => {
                &&& check.awaits_upstream()
                &&& check.upstream_answered(upstream) matches PushProgressView::Decided(decision)
                    && decides(decision, cache, upstream)
            },
        },
        match PushCheckView::Waiting.upstream_answered(upstream) {
            PushProgressView::Decided(decision) => decides(decision, cache, upstream),
            PushProgressView::Undecided(check) => {
                &&& check.awaits_cache()
                &&& check.cache_answered(cache) matches PushProgressView::Decided(decision)
                    && decides(decision, cache, upstream)
            },
        },
        forall|a: Result<PushDecision, Seq<char>>, b: Result<PushDecision, Seq<char>>| #[trigger]
            decides(a, cache, upstream) && #[trigger] decides(b, cache, upstream) ==> a == b || (
            cache == Ok::<bool, Seq<char>>(true) && upstream),
        forall|a: Result<PushDecision, Seq<char>>| #[trigger]
            decides(a, cache, upstream) ==> (a == Ok::<PushDecision, Seq<char>>(PushDecision::Push)
                <==> should_push(cache, upstream) == Ok::<bool, Seq<char>>(true)),
{
}

/// Which of the requests to upstream caches are yet to be answered, and whether
/// one of the answers so far says that a NARInfo exists.
pub struct UpstreamCheck {
    pub num_unanswered: usize,
    pub has_narinfo: bool,
}

/// Whether the reply to a request for a NARInfo says that it exists: that the
/// request was answered, with the status 200.
pub open spec fn says_exists(reply: Option<u16>) -> bool {
    reply == Some(200u16)
}

impl UpstreamCheck {
    /// The check once the given number of requests was sent.
    pub fn new(num_requests: usize) -> (check: Self)
        ensures
            check.num_unanswered == num_requests,
            !check.has_narinfo,
    {
        UpstreamCheck { num_unanswered: num_requests, has_narinfo: false }
    }

    /// The check once one more reply came.
    pub open spec fn replied(self, reply: Option<u16>) -> Self {
        UpstreamCheck {
            num_unanswered: (self.num_unanswered - 1) as usize,
            has_narinfo: self.has_narinfo || says_exists(reply),
        }
    }

    /// The check once the given replies came.
    pub open spec fn replied_all(self, replies: Seq<Option<u16>>) -> Self
        decreases replies.len(),
    {
        if replies.len() == 0 {
            self
        } else {
            self.replied_all(replies.drop_last()).replied(replies.last())
        }
    }

    /// Whether an upstream cache has the NARInfo, if that is known.
    pub open spec fn verdict_spec(self) -> Option<bool> {
        if self.has_narinfo {
            Some(true)
        } else if self.num_unanswered == 0 {
            Some(false)
        } else {
            None
        }
    }

    /// Whether an upstream cache has the NARInfo, if that is known.
    pub fn verdict(&self) -> (verdict: Option<bool>)
        ensures
            verdict == self.verdict_spec(),
    {
        if self.has_narinfo {
            Some(true)
        } else if self.num_unanswered == 0 {
            Some(false)
        } else {
            None
        }
    }

    /// Takes the status of the reply to a request, or `None` if the request
    /// failed.
    pub fn on_reply(&mut self, reply: Option<u16>)
        requires
            old(self).num_unanswered > 0,
        ensures
            *final(self) == old(self).replied(reply),
    {
        self.num_unanswered = self.num_unanswered - 1;
        match reply {
            Some(200) => {
                self.has_narinfo = true;
            },
            _ => {},
        }
    }
}

/// Once all requests are answered, an upstream cache has the NARInfo exactly if
/// one of the replies says so; and it is known as soon as one does.
pub proof fn law_upstream_verdict(num_requests: usize, replies: Seq<Option<u16>>)
    requires
        replies.len() <= num_requests,
    ensures
        ({
            let check = UpstreamCheck {
                num_unanswered: num_requests,
                has_narinfo: false,
            }.replied_all(replies);
            &&& check.num_unanswered == num_requests - replies.len()
            &&& check.verdict_spec() == if exists|i: int|
                0 <= i < replies.len() && says_exists(#[trigger] replies[i]) {
                Some(true)
            } else if replies.len() == num_requests {
                Some(false)
            } else {
                None
            }
        }),
    decreases replies.len(),
{
    if replies.len() > 0 {
        let init = replies.drop_last();
        law_upstream_verdict(num_requests, init);
        if exists|i: int| 0 <= i < init.len() && says_exists(#[trigger] init[i]) {
            let i = choose|i: int| 0 <= i < init.len() && says_exists(#[trigger] init[i]);
            assert(says_exists(replies[i]));
        }
        if exists|i: int| 0 <= i < replies.len() && says_exists(#[trigger] replies[i]) {
            let i = choose|i: int| 0 <= i < replies.len() && says_exists(#[trigger] replies[i]);
            if i < init.len() {
                assert(says_exists(init[i]));
            }
        }
    }
}

/// The running SHA-256 hash of the bytes written so far, and their number.
pub struct HashAndCountWriter {
    sha256: sha2::Sha256,
    num_bytes_written: u64,
}

impl HashAndCountWriter {
    /// The bytes written so far.
    pub closed spec fn written(self) -> Seq<u8> {
        hash::sha256_input(self.sha256)
    }

    /// Whether the number of bytes written is the number of those hashed, and
    /// is small enough for them to be hashed.
    pub closed spec fn wf(self) -> bool {
        &&& self.num_bytes_written == self.written().len()
        &&& self.num_bytes_written <= hash::MAX_HASHED_BYTES
    }

    /// A writer to which nothing was written.
    pub fn new() -> (writer: Self)
        ensures
            writer.wf(),
            writer.written() == Seq::<u8>::empty(),
    {
        HashAndCountWriter { sha256: hash::sha256_new(), num_bytes_written: 0 }
    }

    /// Records that the underlying writer took the first `num_bytes` bytes of
    /// `buf`.
    pub fn on_written(&mut self, buf: &[u8], num_bytes: usize)
        requires
            old(self).wf(),
            num_bytes <= buf@.len(),
            old(self).written().len() + num_bytes <= hash::MAX_HASHED_BYTES,
        ensures
            final(self).wf(),
            final(self).written() == old(self).written() + buf@.take(num_bytes as int),
    {
        let bytes: &[u8] = vstd::slice::slice_subrange(buf, 0, num_bytes);
        assert(bytes@ =~= buf@.take(num_bytes as int));
        hash::sha256_update(&mut self.sha256, bytes);
        self.num_bytes_written = self.num_bytes_written + num_bytes as u64;
    }

    /// Returns the number of bytes written so far.
    pub fn num_bytes_written(&self) -> (num_bytes: u64)
        requires
            self.wf(),
        ensures
            num_bytes == self.written().len(),
    {
        self.num_bytes_written
    }

    /// Returns the digest of the bytes written, and their number.
    pub fn finish(self) -> (res: (Vec<u8>, u64))
        requires
            self.wf(),
        ensures
            res.0@ == hash::sha256_digest(self.written()),
            res.0@.len() == 32,
            res.1 == self.written().len(),
    {
        (hash::sha256_finalize(self.sha256), self.num_bytes_written)
    }
}

/// How the NARs of store paths are compressed before they are uploaded. Just
/// like `nix copy --to`, this is done with `xz`.
pub const NAR_COMPRESSION: CompressionAlgorithm = CompressionAlgorithm::Xz;

/// How far the handling of a store path has come. From the third step on it
/// carries the state of the upload, of the type `S`, that the cache gave out.
pub enum Stage<S> {
    CheckExistence,
    InitiateUpload,
    StreamNar(S),
    DescribePath(S),
    UploadNarInfo(S),
    Finished,
}

/// What the handling of a store path waits for.
pub enum StageEvent<S> {
    /// It is known what is to be done about the store path, or that it cannot be
    /// known.
    Checked(Result<PushDecision, Seq<char>>),
    /// The upload was initiated, or could not be.
    Initiated(Result<S, Seq<char>>),
    /// Uploading the NAR has changed the state of the upload.
    StateChanged(S),
    /// The NAR, of the given number of bytes, was written and uploaded, or could
    /// not be.
    Streamed(Result<nat, ()>),
    /// All infos about the store path are known, or not.
    Described(Result<(), Seq<char>>),
    /// The NARInfo was uploaded, or could not be.
    Uploaded(Result<u64, Seq<char>>),
}

impl<S> Stage<S> {
    /// The stage after something that was waited for, or `None` if it was not.
    pub open spec fn after(self, event: StageEvent<S>) -> Option<Stage<S>> {
        match (self, event) {
            (Stage::CheckExistence, StageEvent::Checked(decision)) => Some(
                if decision == Ok::<PushDecision, Seq<char>>(PushDecision::Push) {
                    Stage::InitiateUpload
                } else {
                    Stage::Finished
                },
            ),
            (Stage::InitiateUpload, StageEvent::Initiated(initiated)) => Some(
                match initiated {
                    Ok(state) => Stage::StreamNar(state),
                    Err(_) => Stage::Finished,
                },
            ),
            (Stage::StreamNar(_), StageEvent::StateChanged(state)) => Some(Stage::StreamNar(state)),
            (Stage::StreamNar(state), StageEvent::Streamed(streamed)) => Some(
                if streamed is Ok && streamed->Ok_0 > 0 {
                    Stage::DescribePath(state)
                } else {
                    Stage::Finished
                },
            ),
            (Stage::DescribePath(state), StageEvent::Described(described)) => Some(
                if described is Ok {
                    Stage::UploadNarInfo(state)
                } else {
                    Stage::Finished
                },
            ),
            (Stage::UploadNarInfo(_), StageEvent::Uploaded(_)) => Some(Stage::Finished),
            _ => None,
        }
    }
}

/// The stage after the given things, or `None` if they cannot come in this
/// order.
pub open spec fn stage_after<S>(events: Seq<StageEvent<S>>) -> Option<Stage<S>>
    decreases events.len(),
{
    if events.len() == 0 {
        Some(Stage::CheckExistence)
    } else {
        match stage_after(events.drop_last()) {
            Some(stage) => stage.after(events.last()),
            None => None,
        }
    }
}

/// The state of the upload after the given things: the one that the cache gave
/// out, as uploading the NAR has left it.
pub open spec fn upload_state_after<S>(events: Seq<StageEvent<S>>) -> Option<S>
    decreases events.len(),
{
    if events.len() == 0 {
        None
    } else {
        match events.last() {
            StageEvent::Initiated(Ok(state)) => Some(state),
            StageEvent::StateChanged(state) => Some(state),
            _ => upload_state_after(events.drop_last()),
        }
    }
}

/// Whether the upload was initiated.
pub open spec fn is_initiated<S>(event: StageEvent<S>) -> bool {
    event matches StageEvent::Initiated(Ok(_))
}

/// Whether the NAR was written and uploaded.
pub open spec fn is_streamed<S>(event: StageEvent<S>) -> bool {
    event matches StageEvent::Streamed(Ok(_))
}

/// The NARInfo goes out at most once, and last: only after the upload was
/// initiated, and the NAR was then both written and uploaded. It goes out with
/// the state of that very upload, as uploading the NAR has left it.
pub proof fn law_narinfo_goes_last<S>(events: Seq<StageEvent<S>>)
    requires
        stage_after(events) is Some,
    ensures
        stage_after(events) matches Some(Stage::UploadNarInfo(state)) ==> {
            &&& upload_state_after(events) == Some(state)
            &&& exists|i: int, j: int|
                0 <= i < j < events.len() && is_initiated(#[trigger] events[i]) && is_streamed(
                    #[trigger] events[j],
                )
        },
        forall|k: int|
            0 <= k < events.len() && (#[trigger] events[k]) is Uploaded ==> k == events.len() - 1
                && stage_after(events.take(k)) matches Some(Stage::UploadNarInfo(_)),
    decreases events.len(),
{
    lemma_stage(events);
    assert forall|k: int| 0 <= k < events.len() && (#[trigger] events[k]) is Uploaded implies k
        == events.len() - 1 && (stage_after(events.take(k)) matches Some(
        Stage::UploadNarInfo(_),
    )) by {
        let front = events.drop_last();
        if k < front.len() {
            law_narinfo_goes_last(front);
            assert(front[k] is Uploaded);
            assert(k == front.len() - 1);
            assert(front.take(k) =~= front.drop_last());
            assert(stage_after(front) == Some(Stage::<S>::Finished));
        } else {
            assert(events.take(k) =~= front);
        }
    }
}

/// What has happened by the time that a stage is reached.
proof fn lemma_stage<S>(events: Seq<StageEvent<S>>)
    requires
        stage_after(events) is Some,
    ensures
        stage_after(events) matches Some(Stage::StreamNar(state)) ==> upload_state_after(events)
            == Some(state) && exists|i: int|
            0 <= i < events.len() && is_initiated(#[trigger] events[i]),
        stage_after(events) matches Some(Stage::DescribePath(state)) ==> upload_state_after(events)
            == Some(state) && exists|i: int, j: int|
            0 <= i < j < events.len() && is_initiated(#[trigger] events[i]) && is_streamed(
                #[trigger] events[j],
            ),
        stage_after(events) matches Some(Stage::UploadNarInfo(state)) ==> upload_state_after(events)
            == Some(state) && exists|i: int, j: int|
            0 <= i < j < events.len() && is_initiated(#[trigger] events[i]) && is_streamed(
                #[trigger] events[j],
            ),
    decreases events.len(),
{
    if events.len() > 0 {
        let front = events.drop_last();
        let last = events.len() - 1;
        lemma_stage(front);
        match stage_after(front) {
            Some(Stage::InitiateUpload) => {
                assert(is_initiated(events[last]) || stage_after(events) == Some(
                    Stage::<S>::Finished,
                ));
            },
            Some(Stage::StreamNar(_)) => {
                let i = choose|i: int| 0 <= i < front.len() && is_initiated(#[trigger] front[i]);
                assert(is_initiated(events[i]));
                assert(is_streamed(events[last]) || !(stage_after(events) matches Some(
                    Stage::DescribePath(_),
                )));
            },
            Some(Stage::DescribePath(_)) => {
                let (i, j) = choose|i: int, j: int|
                    0 <= i < j < front.len() && is_initiated(#[trigger] front[i]) && is_streamed(
                        #[trigger] front[j],
                    );
                assert(is_initiated(events[i]));
                assert(is_streamed(events[j]));
            },
            _ => {},
        }
    }
}

/// The first step: whether the store path is to be pushed is being found out.
pub struct CheckExistence {
    store_path: StorePath,
}

/// The second step: the upload is being initiated.
pub struct InitiateUpload {
    store_path: StorePath,
}

/// What comes after the first step.
pub enum Checked {
    /// The store path is pushed.
    Push(InitiateUpload),
    /// The store path is skipped.
    Skip(PathOutcome),
}

/// The third step: the NAR is being written, compressed and uploaded.
pub struct StreamNar<S> {
    store_path: StorePath,
    upload_state: S,
}

/// The fourth step: what the store knows about the path is being asked for.
pub struct DescribePath<S> {
    store_path: StorePath,
    upload_state: S,
    nar_hash: Vec<u8>,
    nar_size: u64,
    file_hash: Vec<u8>,
    file_size: u64,
}

/// The last step: the NARInfo is being uploaded. Just like `nix copy --to`, this
/// comes after the NAR to avoid the cache server temporarily reporting false
/// positives.
pub struct UploadNarInfo<S> {
    narinfo_filename: NarInfoFileName,
    narinfo: NarInfo,
    upload_state: S,
}

/// Why a NAR could not be streamed from the store to the cache.
#[derive(Debug)]
pub enum StreamError {
    WriteNar(String),
    UploadNar(String),
}

/// What the store knows about a path, as far as it could be found out.
#[derive(Debug)]
pub struct PathInfos {
    pub references: Result<Vec<StoreBasename>, String>,
    pub deriver: Result<Option<StoreBasename>, String>,
    pub signatures: Result<Vec<String>, String>,
    pub content_address: Result<Option<String>, String>,
}

/// The contents of an optional basename.
pub open spec fn optional_basename(name: Option<StoreBasename>) -> Option<StoreBasenameView> {
    match name {
        Some(name) => Some(name@),
        None => None,
    }
}

/// The contents of an optional text.
pub open spec fn optional_text(text: Option<String>) -> Option<Seq<char>> {
    match text {
        Some(text) => Some(text@),
        None => None,
    }
}

impl PathInfos {
    /// The first of the infos that could not be found out.
    pub open spec fn first_error(self) -> Option<Seq<char>> {
        if self.references is Err {
            Some(self.references->Err_0@)
        } else if self.deriver is Err {
            Some(self.deriver->Err_0@)
        } else if self.signatures is Err {
            Some(self.signatures->Err_0@)
        } else if self.content_address is Err {
            Some(self.content_address->Err_0@)
        } else {
            None
        }
    }
}

/// Whether a NARInfo describes the given store path, the NAR with the given
/// digest and size, the file with the given digest and size that holds the NAR
/// in compressed form, and the given infos.
pub open spec fn describes(
    narinfo: NarInfo,
    path: StorePathView,
    nar_hash: Seq<u8>,
    nar_size: u64,
    file_hash: Seq<u8>,
    file_size: u64,
    infos: PathInfos,
) -> bool {
    &&& narinfo.store_path@ == path
    &&& narinfo.compression == NAR_COMPRESSION
    &&& narinfo.compression != CompressionAlgorithm::Uncompressed
    &&& narinfo.file_hash@ == file_hash
    &&& narinfo.file_size == file_size
    &&& narinfo.nar_hash@ == nar_hash
    &&& narinfo.nar_size == nar_size
    &&& infos.references is Ok && store_path::basename_views(narinfo.references@)
        == store_path::basename_views(infos.references->Ok_0@)
    &&& infos.deriver is Ok && optional_basename(narinfo.deriver) == optional_basename(
        infos.deriver->Ok_0,
    )
    &&& infos.signatures is Ok && store_path::text_views(narinfo.signatures@)
        == store_path::text_views(infos.signatures->Ok_0@)
    &&& infos.content_address is Ok && optional_text(narinfo.content_address) == optional_text(
        infos.content_address->Ok_0,
    )
}

impl CheckExistence {
    /// The store path that is being handled.
    pub closed spec fn path(self) -> StorePathView {
        self.store_path@
    }

    /// Starts handling a store path.
    pub fn new(store_path: StorePath) -> (step: Self)
        ensures
            step.path() == store_path@,
    {
        CheckExistence { store_path }
    }

    /// Returns the name of the NARInfo to look for.
    pub fn narinfo_filename(&self) -> (name: NarInfoFileName)
        ensures
            name.store_hash@ == self.path().hash(),
    {
        NarInfoFileName::of(&self.store_path)
    }

    /// Takes what is to be done about the store path, and gives the next step, or
    /// the outcome if the store path is skipped.
    pub fn on_checked(self, decision: Result<PushDecision, String>) -> (next: Result<
        Checked,
        HandlePathError,
    >)
        ensures
            match decision {
                Ok(PushDecision::Push) => next matches Ok(Checked::Push(step)) && step.path()
                    == self.path(),
                Ok(PushDecision::CacheHas) => next == Ok::<Checked, HandlePathError>(
                    Checked::Skip(PathOutcome::InCache),
                ),
                Ok(PushDecision::UpstreamHas) => next == Ok::<Checked, HandlePathError>(
                    Checked::Skip(PathOutcome::InUpstreamCache),
                ),
                Err(error) => next is Err && next->Err_0@
                    == HandlePathErrorView::CheckNarInfoExistence(error@),
            },
            Stage::<()>::CheckExistence.after(StageEvent::Checked(answer_view(decision))) == Some(
                if next matches Ok(Checked::Push(_)) {
                    Stage::<()>::InitiateUpload
                } else {
                    Stage::<()>::Finished
                },
            ),
    {
        match decision {
            Ok(PushDecision::Push) => Ok(
                Checked::Push(InitiateUpload { store_path: self.store_path }),
            ),
            Ok(PushDecision::CacheHas) => Ok(Checked::Skip(PathOutcome::InCache)),
            Ok(PushDecision::UpstreamHas) => Ok(Checked::Skip(PathOutcome::InUpstreamCache)),
            Err(error) => Err(HandlePathError::CheckNarInfoExistence(error)),
        }
    }
}

impl InitiateUpload {
    /// The store path that is being handled.
    pub closed spec fn path(self) -> StorePathView {
        self.store_path@
    }

    /// Returns the store path whose upload to initiate.
    pub fn store_path(&self) -> (path: &StorePath)
        ensures
            path@ == self.path(),
    {
        &self.store_path
    }

    /// Takes the outcome of initiating the upload: the state that the cache gave
    /// out for it.
    pub fn on_initiated<S>(self, initiated: Result<S, String>) -> (next: Result<
        StreamNar<S>,
        HandlePathError,
    >)
        ensures
            match initiated {
                Ok(state) => next is Ok && next->Ok_0.path() == self.path()
                    && next->Ok_0.upload() == state,
                Err(error) => next is Err && next->Err_0@ == HandlePathErrorView::CreateNarUploadId(
                    error@,
                ),
            },
            Stage::InitiateUpload.after(StageEvent::Initiated(answer_view(initiated))) == Some(
                match next {
                    Ok(step) => step.stage(),
                    Err(_) => Stage::Finished,
                },
            ),
    {
        match initiated {
            Ok(upload_state) => Ok(StreamNar { store_path: self.store_path, upload_state }),
            Err(error) => Err(HandlePathError::CreateNarUploadId(error)),
        }
    }
}

impl<S> StreamNar<S> {
    /// The store path that is being handled.
    pub closed spec fn path(self) -> StorePathView {
        self.store_path@
    }

    /// The state of the upload.
    pub closed spec fn upload(self) -> S {
        self.upload_state
    }

    /// The stage of the handling.
    pub open spec fn stage(self) -> Stage<S> {
        Stage::StreamNar(self.upload())
    }

    /// Returns the store path whose NAR to stream.
    pub fn store_path(&self) -> (path: &StorePath)
        ensures
            path@ == self.path(),
    {
        &self.store_path
    }

    /// Returns the state of the upload, for uploading the NAR to change it.
    pub fn upload_state(&mut self) -> (state: &mut S)
        ensures
            *state == old(self).upload(),
            final(self).upload() == *final(state),
            final(self).path() == old(self).path(),
            old(self).stage().after(StageEvent::StateChanged(*final(state))) == Some(
                final(self).stage(),
            ),
    {
        &mut self.upload_state
    }

    /// Takes the outcome of streaming the NAR, through a writer that took the
    /// NAR, to one that took the file that holds it in compressed form. A NAR
    /// without any bytes is an error.
    pub fn on_streamed(
        self,
        nar: HashAndCountWriter,
        file: HashAndCountWriter,
        streamed: Result<(), StreamError>,
    ) -> (next: Result<DescribePath<S>, HandlePathError>)
        requires
            nar.wf(),
            file.wf(),
        ensures
            match streamed {
                Ok(_) => if nar.written().len() == 0 {
                    next is Err && next->Err_0@ == HandlePathErrorView::WriteNarWroteZeroBytes
                } else {
                    &&& next is Ok
                    &&& next->Ok_0.path() == self.path()
                    &&& next->Ok_0.upload() == self.upload()
                    &&& next->Ok_0.nar_hash() == hash::sha256_digest(nar.written())
                    &&& next->Ok_0.nar_size() == nar.written().len()
                    &&& next->Ok_0.file_hash() == hash::sha256_digest(file.written())
                    &&& next->Ok_0.file_size() == file.written().len()
                },
                Err(StreamError::WriteNar(error)) => next is Err && next->Err_0@
                    == HandlePathErrorView::WriteNar(error@),
                Err(StreamError::UploadNar(error)) => next is Err && next->Err_0@
                    == HandlePathErrorView::UploadNar(error@),
            },
            self.stage().after(
                StageEvent::Streamed(
                    match streamed {
                        Ok(_) => Ok::<nat, ()>(nar.written().len()),
                        Err(_) => Err::<nat, ()>(()),
                    },
                ),
            ) == Some(
                match next {
                    Ok(step) => step.stage(),
                    Err(_) => Stage::Finished,
                },
            ),
    {
        match streamed {
            Ok(_) => {
                let (nar_hash, nar_size): (Vec<u8>, u64) = nar.finish();
                let (file_hash, file_size): (Vec<u8>, u64) = file.finish();
                if nar_size == 0 {
                    Err(HandlePathError::WriteNarWroteZeroBytes)
                } else {
                    Ok(
                        DescribePath {
                            store_path: self.store_path,
                            upload_state: self.upload_state,
                            nar_hash,
                            nar_size,
                            file_hash,
                            file_size,
                        },
                    )
                }
            },
            Err(StreamError::WriteNar(error)) => Err(HandlePathError::WriteNar(error)),
            Err(StreamError::UploadNar(error)) => Err(HandlePathError::UploadNar(error)),
        }
    }
}

impl<S> DescribePath<S> {
    /// The store path that is being handled.
    pub closed spec fn path(self) -> StorePathView {
        self.store_path@
    }

    /// The state of the upload.
    pub closed spec fn upload(self) -> S {
        self.upload_state
    }

    /// The stage of the handling.
    pub open spec fn stage(self) -> Stage<S> {
        Stage::DescribePath(self.upload())
    }

    /// The digest of the NAR.
    pub closed spec fn nar_hash(self) -> Seq<u8> {
        self.nar_hash@
    }

    /// The number of bytes of the NAR.
    pub closed spec fn nar_size(self) -> u64 {
        self.nar_size
    }

    /// The digest of the file that holds the NAR in compressed form.
    pub closed spec fn file_hash(self) -> Seq<u8> {
        self.file_hash@
    }

    /// The number of bytes of the file that holds the NAR in compressed form.
    pub closed spec fn file_size(self) -> u64 {
        self.file_size
    }

    /// Returns the store path whose infos to ask for.
    pub fn store_path(&self) -> (path: &StorePath)
        ensures
            path@ == self.path(),
    {
        &self.store_path
    }

    /// Takes what the store knows about the path.
    pub fn on_described(self, infos: Result<PathInfos, String>) -> (next: Result<
        UploadNarInfo<S>,
        HandlePathError,
    >)
        ensures
            match first_info_error(infos) {
                Some(error) => next is Err && next->Err_0@ == HandlePathErrorView::GetPathInfos(
                    error,
                ),
                None => {
                    &&& next is Ok
                    &&& next->Ok_0.upload() == self.upload()
                    &&& next->Ok_0.filename_hash() == self.path().hash()
                    &&& describes(
                        next->Ok_0.narinfo(),
                        self.path(),
                        self.nar_hash(),
                        self.nar_size(),
                        self.file_hash(),
                        self.file_size(),
                        infos->Ok_0,
                    )
                },
            },
            self.stage().after(
                StageEvent::Described(
                    match first_info_error(infos) {
                        Some(error) => Err::<(), Seq<char>>(error),
                        None => Ok::<(), Seq<char>>(()),
                    },
                ),
            ) == Some(
                match next {
                    Ok(step) => step.stage(),
                    Err(_) => Stage::Finished,
                },
            ),
    {
        let infos: PathInfos = match infos {
            Ok(infos) => infos,
            Err(error) => return Err(HandlePathError::GetPathInfos(error)),
        };
        let references: Vec<StoreBasename> = match infos.references {
            Ok(references) => references,
            Err(error) => return Err(HandlePathError::GetPathInfos(error)),
        };
        let deriver: Option<StoreBasename> = match infos.deriver {
            Ok(deriver) => deriver,
            Err(error) => return Err(HandlePathError::GetPathInfos(error)),
        };
        let signatures: Vec<String> = match infos.signatures {
            Ok(signatures) => signatures,
            Err(error) => return Err(HandlePathError::GetPathInfos(error)),
        };
        let content_address: Option<String> = match infos.content_address {
            Ok(content_address) => content_address,
            Err(error) => return Err(HandlePathError::GetPathInfos(error)),
        };
        let narinfo_filename: NarInfoFileName = NarInfoFileName::of(&self.store_path);
        let narinfo = NarInfo {
            store_path: self.store_path,
            compression: NAR_COMPRESSION,
            file_hash: self.file_hash,
            file_size: self.file_size,
            nar_hash: self.nar_hash,
            nar_size: self.nar_size,
            references,
            deriver,
            signatures,
            content_address,
        };
        Ok(UploadNarInfo { narinfo_filename, narinfo, upload_state: self.upload_state })
    }
}

/// Why not all infos about a store path could be found out, if so.
pub open spec fn first_info_error(infos: Result<PathInfos, String>) -> Option<Seq<char>> {
    match infos {
        Ok(infos) => infos.first_error(),
        Err(error) => Some(error@),
    }
}

impl<S> UploadNarInfo<S> {
    /// The hash in the name of the NARInfo.
    pub closed spec fn filename_hash(self) -> Seq<char> {
        self.narinfo_filename.store_hash@
    }

    /// The NARInfo to upload.
    pub closed spec fn narinfo(self) -> NarInfo {
        self.narinfo
    }

    /// The state of the upload.
    pub closed spec fn upload(self) -> S {
        self.upload_state
    }

    /// The stage of the handling.
    pub open spec fn stage(self) -> Stage<S> {
        Stage::UploadNarInfo(self.upload())
    }

    /// Returns the name of the NARInfo to upload.
    pub fn narinfo_filename(&self) -> (name: &NarInfoFileName)
        ensures
            name.store_hash@ == self.filename_hash(),
    {
        &self.narinfo_filename
    }

    /// Returns the NARInfo to upload.
    pub fn narinfo_to_upload(&self) -> (narinfo: &NarInfo)
        ensures
            *narinfo == self.narinfo(),
    {
        &self.narinfo
    }

    /// Returns the state of the upload with which the NARInfo goes out.
    pub fn upload_state(&self) -> (state: &S)
        ensures
            *state == self.upload(),
    {
        &self.upload_state
    }

    /// Takes the number of bytes of the NARInfo that was uploaded. Returns the
    /// total number of bytes pushed to the cache: those of the file that holds
    /// the NAR, and those of the NARInfo.
    pub fn on_uploaded(self, narinfo_size: Result<u64, String>) -> (pushed: Result<
        PathOutcome,
        HandlePathError,
    >)
        ensures
            match narinfo_size {
                Ok(narinfo_size) => {
                    &&& pushed matches Ok(PathOutcome::Pushed { num_bytes })
                    &&& num_bytes == if self.narinfo().file_size + narinfo_size <= u64::MAX {
                        self.narinfo().file_size + narinfo_size
                    } else {
                        u64::MAX as int
                    }
                },
                Err(error) => pushed is Err && pushed->Err_0@ == HandlePathErrorView::UploadNarInfo(
                    error@,
                ),
            },
    {
        match narinfo_size {
            Ok(narinfo_size) => Ok(
                PathOutcome::Pushed {
                    num_bytes: self.narinfo.file_size.saturating_add(narinfo_size),
                },
            ),
            Err(error) => Err(HandlePathError::UploadNarInfo(error)),
        }
    }
}

/// A store path is pushed exactly if the cache answers that it has it not, and no
/// upstream cache has it, whichever of them answers first. It is skipped if the
/// cache or an upstream cache has it, for a reason that holds, even if the cache
/// could not be asked; and that the cache could not be asked is an error only if
/// no upstream cache has it.
pub proof fn law_path_is_pushed_if_no_cache_has_it(cache: Result<bool, Seq<char>>, upstream: bool)
    ensures
        ({
            let cache_first = match PushCheckView::Waiting.cache_answered(cache) {
                PushProgressView::Decided(decision) => decision,
                PushProgressView::Undecided(check) => {
                    check.upstream_answered(upstream)->Decided_0
                },
            };
            let upstream_first = match PushCheckView::Waiting.upstream_answered(upstream) {
                PushProgressView::Decided(decision) => decision,
                PushProgressView::Undecided(check) => check.cache_answered(cache)->Decided_0,
            };
            let has = cache == Ok::<bool, Seq<char>>(true);
            let is_right = |decision: Result<PushDecision, Seq<char>>|
                {
                    &&& decision == Ok::<PushDecision, Seq<char>>(PushDecision::Push) <==> cache
                        == Ok::<bool, Seq<char>>(false) && !upstream
                    &&& decision == Ok::<PushDecision, Seq<char>>(PushDecision::CacheHas) ==> has
                    &&& decision == Ok::<PushDecision, Seq<char>>(PushDecision::UpstreamHas)
                        ==> upstream
                    &&& decision is Err <==> cache is Err && !upstream
                    &&& decision matches Err(error) ==> cache == Err::<bool, Seq<char>>(error)
                };
            &&& is_right(cache_first)
            &&& is_right(upstream_first)
            &&& has ==> cache_first == Ok::<PushDecision, Seq<char>>(PushDecision::CacheHas)
            &&& upstream ==> upstream_first == Ok::<PushDecision, Seq<char>>(
                PushDecision::UpstreamHas,
            )
            &&& PushCheckView::Waiting.cache_answered(cache) is Decided <==> has
            &&& PushCheckView::Waiting.upstream_answered(upstream) is Decided <==> upstream
        }),
{
}

/// An upstream cache has a NARInfo exactly if it replies with the status 200: it
/// is known as soon as one does, and that none has it only once all have replied.
pub proof fn law_upstream_cache_has_it_if_one_replies_so(
    num_requests: usize,
    replies: Seq<Option<u16>>,
)
    requires
        replies.len() <= num_requests,
    ensures
        ({
            let check = UpstreamCheck {
                num_unanswered: num_requests,
                has_narinfo: false,
            }.replied_all(replies);
            &&& check.verdict_spec() == Some(true) <==> replies.contains(Some(200u16))
            &&& check.verdict_spec() == Some(false) <==> replies.len() == num_requests
                && !replies.contains(Some(200u16))
        }),
{
    law_upstream_verdict(num_requests, replies);
    if exists|i: int| 0 <= i < replies.len() && says_exists(#[trigger] replies[i]) {
        let i = choose|i: int| 0 <= i < replies.len() && says_exists(#[trigger] replies[i]);
        assert(replies[i] == Some(200u16));
    }
    if replies.contains(Some(200u16)) {
        let i = choose|i: int| 0 <= i < replies.len() && replies[i] == Some(200u16);
        assert(says_exists(replies[i]));
    }
}

/// A NARInfo that describes a store path says of the path, of its NAR, and of the
/// file that holds the NAR, each what is true of it, and that the file is
/// compressed with `xz`; and it says whatever the store knows about the path.
pub proof fn law_narinfo_says_what_is_true(
    narinfo: NarInfo,
    path: StorePathView,
    nar: Seq<u8>,
    file: Seq<u8>,
    nar_size: u64,
    file_size: u64,
    infos: PathInfos,
)
    requires
        describes(
            narinfo,
            path,
            hash::sha256_digest(nar),
            nar_size,
            hash::sha256_digest(file),
            file_size,
            infos,
        ),
    ensures
        narinfo.store_path@ == path,
        narinfo.compression == CompressionAlgorithm::Xz,
        narinfo.nar_hash@ == hash::sha256_digest(nar),
        narinfo.nar_size == nar_size,
        narinfo.file_hash@ == hash::sha256_digest(file),
        narinfo.file_size == file_size,
        infos.references matches Ok(references) && narinfo.references@.len() == references@.len()
            && forall|i: int|
            0 <= i < references@.len() ==> (#[trigger] narinfo.references@[i])@ == references@[i]@,
        infos.deriver matches Ok(deriver) && (narinfo.deriver is Some <==> deriver is Some) && (
        deriver is Some ==> narinfo.deriver->0@ == deriver->0@),
        infos.signatures matches Ok(signatures) && narinfo.signatures@.len() == signatures@.len()
            && forall|i: int|
            0 <= i < signatures@.len() ==> (#[trigger] narinfo.signatures@[i])@ == signatures@[i]@,
        infos.content_address matches Ok(address) && (narinfo.content_address is Some
            <==> address is Some) && (address is Some ==> narinfo.content_address->0@
            == address->0@),
{
    let said = store_path::basename_views(narinfo.references@);
    let known = store_path::basename_views(infos.references->Ok_0@);
    assert(said.len() == narinfo.references@.len());
    assert(known.len() == infos.references->Ok_0@.len());
    assert forall|i: int| 0 <= i < known.len() implies (#[trigger] narinfo.references@[i])@
        == infos.references->Ok_0@[i]@ by {
        assert(said[i] == narinfo.references@[i]@);
        assert(known[i] == infos.references->Ok_0@[i]@);
    }
    let signed = store_path::text_views(narinfo.signatures@);
    let signatures = store_path::text_views(infos.signatures->Ok_0@);
    assert(signed.len() == narinfo.signatures@.len());
    assert(signatures.len() == infos.signatures->Ok_0@.len());
    assert forall|i: int| 0 <= i < signatures.len() implies (#[trigger] narinfo.signatures@[i])@
        == infos.signatures->Ok_0@[i]@ by {
        assert(signed[i] == narinfo.signatures@[i]@);
        assert(signatures[i] == infos.signatures->Ok_0@[i]@);
    }
}

/// A store path is described exactly if nothing that is asked of the store fails;
/// otherwise the error is that of the first thing that does: of all of it, of the
/// references, the deriver, the signatures, or the content address.
pub proof fn law_first_missing_info_is_told(infos: Result<PathInfos, String>)
    ensures
        first_info_error(infos) is None <==> (infos matches Ok(infos) && infos.references is Ok
            && infos.deriver is Ok && infos.signatures is Ok && infos.content_address is Ok),
        match infos {
            Err(error) => first_info_error(infos) == Some(error@),
            Ok(PathInfos { references: Err(error), .. }) => first_info_error(infos) == Some(error@),
            Ok(PathInfos { references: Ok(_), deriver: Err(error), .. }) => first_info_error(infos)
                == Some(error@),
            Ok(
                PathInfos { references: Ok(_), deriver: Ok(_), signatures: Err(error), .. },
            ) => first_info_error(infos) == Some(error@),
            Ok(
                PathInfos {
                    references: Ok(_),
                    deriver: Ok(_),
                    signatures: Ok(_),
                    content_address: Err(error),
                },
            ) => first_info_error(infos) == Some(error@),
            _ => true,
        },
{
}

/// An answer, and what is known once it has come, are known in full.
pub proof fn law_answers_are_kept_in_full(
    answer: Result<bool, String>,
    decision: PushDecision,
    check: PushCheck,
    error: String,
)
    ensures
        match answer {
            Ok(value) => answer_view(answer) == Ok::<bool, Seq<char>>(value),
            Err(error) => answer_view(answer) == Err::<bool, Seq<char>>(error@),
        },
        PushCheck::Waiting@ == PushCheckView::Waiting,
        PushCheck::CacheHasNot@ == PushCheckView::CacheHasNot,
        PushCheck::CacheFailed(error)@ == PushCheckView::CacheFailed(error@),
        PushCheck::UpstreamHasNot@ == PushCheckView::UpstreamHasNot,
        PushProgress::Decided(Ok(decision))@ == PushProgressView::Decided(
            Ok::<PushDecision, Seq<char>>(decision),
        ),
        PushProgress::Decided(Err(error))@ == PushProgressView::Decided(
            Err::<PushDecision, Seq<char>>(error@),
        ),
        PushProgress::Undecided(check)@ == PushProgressView::Undecided(check@),
{
}

} // verus!
