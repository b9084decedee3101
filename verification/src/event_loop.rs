//! The decisions of the daemon's event loop.
//!
//! The daemon waits for several things at once: connections, messages,
//! closures of store paths, store paths being pushed. What it does about each
//! of them is decided here.

use std::collections::VecDeque;

use vstd::prelude::*;
use vstd::utf8::*;

use crate::bytes_order::ByteSet;
use crate::protocol::{Message, ReceiveError};
use crate::store_path::{StorePath, StorePathView};
use crate::{store_path, text};

verus! {

/// Maximum number of store paths handled concurrently.
pub const MAX_CONCURRENT_STORE_PATHS: usize = 32;

/// Why a store path could not be handled.
#[derive(Debug)]
pub enum HandlePathError {
    CheckNarInfoExistence(String),
    CreateNarUploadId(String),
    GetPathInfos(String),
    UploadNar(String),
    UploadNarInfo(String),
    WriteNar(String),
    WriteNarWroteZeroBytes,
}

/// The contents of a [`HandlePathError`].
#[verifier::ext_equal]
pub enum HandlePathErrorView {
    CheckNarInfoExistence(Seq<char>),
    CreateNarUploadId(Seq<char>),
    GetPathInfos(Seq<char>),
    UploadNar(Seq<char>),
    UploadNarInfo(Seq<char>),
    WriteNar(Seq<char>),
    WriteNarWroteZeroBytes,
}

impl View for HandlePathError {
    type V = HandlePathErrorView;

    open spec fn view(&self) -> HandlePathErrorView {
        match self {
            HandlePathError::CheckNarInfoExistence(error) => {
                HandlePathErrorView::CheckNarInfoExistence(error@)
            },
            HandlePathError::CreateNarUploadId(error) => {
                HandlePathErrorView::CreateNarUploadId(error@)
            },
            HandlePathError::GetPathInfos(error) => HandlePathErrorView::GetPathInfos(error@),
            HandlePathError::UploadNar(error) => HandlePathErrorView::UploadNar(error@),
            HandlePathError::UploadNarInfo(error) => HandlePathErrorView::UploadNarInfo(error@),
            HandlePathError::WriteNar(error) => HandlePathErrorView::WriteNar(error@),
            HandlePathError::WriteNarWroteZeroBytes => HandlePathErrorView::WriteNarWroteZeroBytes,
        }
    }
}

impl HandlePathErrorView {
    /// The written form.
    pub open spec fn text(self) -> Seq<char> {
        match self {
            HandlePathErrorView::CheckNarInfoExistence(error) => {
                "couldn't check NARInfo existence on remote cache: "@ + error
            },
            HandlePathErrorView::CreateNarUploadId(error) => {
                "couldn't create NAR upload ID: "@ + error
            },
            HandlePathErrorView::GetPathInfos(error) => "couldn't get store path infos: "@ + error,
            HandlePathErrorView::UploadNar(error) => "couldn't upload NAR to cache: "@ + error,
            HandlePathErrorView::UploadNarInfo(error) => {
                "couldn't upload NARInfo to cache: "@ + error
            },
            HandlePathErrorView::WriteNar(error) => "couldn't get NAR from store: "@ + error,
            HandlePathErrorView::WriteNarWroteZeroBytes => "got empty NAR from store"@,
        }
    }
}

impl HandlePathError {
    /// Returns the written form.
    pub fn to_text(&self) -> (text: String)
        ensures
            text@ == self@.text(),
    {
        match self {
            HandlePathError::CheckNarInfoExistence(error) => text::concat2(
                "couldn't check NARInfo existence on remote cache: ",
                error.as_str(),
            ),
            HandlePathError::CreateNarUploadId(error) => text::concat2(
                "couldn't create NAR upload ID: ",
                error.as_str(),
            ),
            HandlePathError::GetPathInfos(error) => text::concat2(
                "couldn't get store path infos: ",
                error.as_str(),
            ),
            HandlePathError::UploadNar(error) => text::concat2(
                "couldn't upload NAR to cache: ",
                error.as_str(),
            ),
            HandlePathError::UploadNarInfo(error) => text::concat2(
                "couldn't upload NARInfo to cache: ",
                error.as_str(),
            ),
            HandlePathError::WriteNar(error) => text::concat2(
                "couldn't get NAR from store: ",
                error.as_str(),
            ),
            HandlePathError::WriteNarWroteZeroBytes => "got empty NAR from store".to_owned(),
        }
    }
}

/// How a store path was handled.
#[derive(Clone, Copy, Debug, PartialEq, Eq, Structural)]
pub enum PathOutcome {
    /// It was pushed to the cache, with the given number of bytes.
    Pushed { num_bytes: u64 },
    /// It was skipped, as it is already stored in the cache.
    InCache,
    /// It was skipped, as one of the upstream caches has it.
    InUpstreamCache,
}

/// What became of the store paths that the daemon was given.
pub struct ActionReport {
    /// The number of bytes pushed to the cache.
    pub num_bytes_pushed: u64,
    /// The number of store paths pushed to the cache.
    pub num_paths_pushed: u32,
    /// The number of store paths already stored in the cache.
    pub num_paths_skipped: u32,
    /// The store paths for which it wasn't possible to compute their closure,
    /// together with the corresponding error.
    pub path_closure_errors: Vec<(StorePath, String)>,
    /// The store paths that it wasn't possible to handle, together with the
    /// corresponding error.
    pub path_handling_errors: Vec<(StorePath, HandlePathError)>,
}

/// The contents of an [`ActionReport`].
#[verifier::ext_equal]
pub struct ActionReportView {
    pub num_bytes_pushed: nat,
    pub num_paths_pushed: nat,
    pub num_paths_skipped: nat,
    pub path_closure_errors: Seq<(StorePathView, Seq<char>)>,
    pub path_handling_errors: Seq<(StorePathView, HandlePathErrorView)>,
}

impl View for ActionReport {
    type V = ActionReportView;

    open spec fn view(&self) -> ActionReportView {
        ActionReportView {
            num_bytes_pushed: self.num_bytes_pushed as nat,
            num_paths_pushed: self.num_paths_pushed as nat,
            num_paths_skipped: self.num_paths_skipped as nat,
            path_closure_errors: self.path_closure_errors@.map_values(
                |error: (StorePath, String)| (error.0@, error.1@),
            ),
            path_handling_errors: self.path_handling_errors@.map_values(
                |error: (StorePath, HandlePathError)| (error.0@, error.1@),
            ),
        }
    }
}

impl ActionReportView {
    /// The report of a daemon that has done nothing yet.
    pub open spec fn empty() -> Self {
        ActionReportView {
            num_bytes_pushed: 0,
            num_paths_pushed: 0,
            num_paths_skipped: 0,
            path_closure_errors: seq![],
            path_handling_errors: seq![],
        }
    }

    /// The report once a store path was handled. It says nothing about one that
    /// was skipped as an upstream cache has it.
    pub open spec fn handled(
        self,
        path: StorePathView,
        outcome: Result<PathOutcome, HandlePathErrorView>,
    ) -> Self {
        match outcome {
            Ok(PathOutcome::Pushed { num_bytes }) => ActionReportView {
                num_bytes_pushed: self.num_bytes_pushed + num_bytes as nat,
                num_paths_pushed: self.num_paths_pushed + 1,
                ..self
            },
            Ok(PathOutcome::InCache) => ActionReportView {
                num_paths_skipped: self.num_paths_skipped + 1,
                ..self
            },
            Ok(PathOutcome::InUpstreamCache) => self,
            Err(error) => ActionReportView {
                path_handling_errors: self.path_handling_errors.push((path, error)),
                ..self
            },
        }
    }

    /// The number of store paths of which the report says how they were
    /// handled.
    pub open spec fn num_handled(self) -> nat {
        self.num_paths_pushed + self.num_paths_skipped + self.path_handling_errors.len()
    }
}

/// The contents of the outcome of handling a store path.
pub open spec fn outcome_view(outcome: Result<PathOutcome, HandlePathError>) -> Result<
    PathOutcome,
    HandlePathErrorView,
> {
    match outcome {
        Ok(outcome) => Ok(outcome),
        Err(error) => Err(error@),
    }
}

impl Default for ActionReport {
    fn default() -> (report: Self)
        ensures
            report@ == ActionReportView::empty(),
    {
        let report = ActionReport {
            num_bytes_pushed: 0,
            num_paths_pushed: 0,
            num_paths_skipped: 0,
            path_closure_errors: Vec::new(),
            path_handling_errors: Vec::new(),
        };
        assert(report@ =~= ActionReportView::empty());
        report
    }
}

impl ActionReport {
    /// Records how a store path was handled.
    fn record(&mut self, path: StorePath, outcome: Result<PathOutcome, HandlePathError>)
        requires
            outcome matches Ok(PathOutcome::Pushed { num_bytes }) ==> {
                &&& old(self).num_bytes_pushed + num_bytes <= u64::MAX
                &&& old(self).num_paths_pushed < u32::MAX
            },
            outcome matches Ok(PathOutcome::InCache) ==> old(self).num_paths_skipped < u32::MAX,
        ensures
            final(self)@ == old(self)@.handled(path@, outcome_view(outcome)),
    {
        let ghost before = self@;
        match outcome {
            Ok(PathOutcome::Pushed { num_bytes }) => {
                self.num_bytes_pushed = self.num_bytes_pushed + num_bytes;
                self.num_paths_pushed = self.num_paths_pushed + 1;
            },
            Ok(PathOutcome::InCache) => {
                self.num_paths_skipped = self.num_paths_skipped + 1;
            },
            Ok(PathOutcome::InUpstreamCache) => {},
            Err(error) => {
                self.path_handling_errors.push((path, error));
            },
        }
        assert(self@ =~= before.handled(path@, outcome_view(outcome)));
    }
}

/// What the daemon learns from its clients.
#[derive(Debug)]
pub enum Event {
    PushStorePath(StorePath),
    /// A client asks the daemon to stop, and waits for its progress.
    Stop,
}

/// What becomes of the next item that a client's messages give.
#[derive(Debug)]
pub enum IoStep {
    /// The client is done with.
    Return,
    /// Hand this on to the event loop, and wait for the next item.
    Forward(Result<Event, ReceiveError>),
    /// Hand this on to the event loop, together with the connection, and stop
    /// reading from the client.
    ForwardAndReturn(Event),
}

/// Decides what to do with the next item that a client's messages give.
pub fn handle_io(item: Option<Result<Message, ReceiveError>>) -> (step: IoStep)
    ensures
        match item {
            None => step is Return,
            Some(Ok(Message::PushStorePath(path))) => step
                == IoStep::Forward(Ok(Event::PushStorePath(path))),
            Some(Ok(Message::DrainDaemon)) => step == IoStep::ForwardAndReturn(Event::Stop),
            Some(Err(error)) => step == IoStep::Forward(Err(error)),
        },
{
    match item {
        None => IoStep::Return,
        Some(Ok(Message::PushStorePath(path))) => IoStep::Forward(Ok(Event::PushStorePath(path))),
        Some(Ok(Message::DrainDaemon)) => IoStep::ForwardAndReturn(Event::Stop),
        Some(Err(error)) => IoStep::Forward(Err(error)),
    }
}

/// What the event loop does about a message.
#[derive(Debug)]
pub enum MessageAction {
    /// Start computing the closure of this store path.
    ComputeClosure(StorePath),
    /// Keep the connection that the request came over, in place of any earlier
    /// one, to report progress on.
    KeepForProgress,
    /// Tell about bytes that were no message.
    ReportError(ReceiveError),
}

/// The state of the event loop.
pub struct EventLoop {
    /// The hashes of the store paths that were seen so far.
    seen_store_hashes: ByteSet,
    /// The number of closures being computed.
    num_store_closures: usize,
    /// The number of store paths being handled.
    num_handled_paths: usize,
    /// The store paths that wait for one of those being handled to be done.
    pending_store_paths: VecDeque<StorePath>,
    /// Whether a client asked the daemon to stop.
    stop_requested: bool,
    report: ActionReport,
    /// The number of store paths that were skipped as an upstream cache has
    /// them.
    num_upstream_paths: Ghost<nat>,
}

/// The contents of an [`EventLoop`].
#[verifier::ext_equal]
pub struct EventLoopView {
    /// The hashes of the store paths that were seen so far.
    pub seen: Set<Seq<char>>,
    /// The number of closures being computed.
    pub closures: nat,
    /// The number of store paths being handled.
    pub handling: nat,
    /// The store paths that wait for one of those being handled to be done.
    pub pending: Seq<StorePathView>,
    /// Whether a client asked the daemon to stop.
    pub stop_requested: bool,
    pub report: ActionReportView,
    /// The number of store paths that were skipped as an upstream cache has
    /// them, about which the report says nothing.
    pub upstream: nat,
}

/// The hashes in `seen`, and those of the given store paths.
pub open spec fn seen_after(seen: Set<Seq<char>>, paths: Seq<StorePathView>) -> Set<Seq<char>>
    decreases paths.len(),
{
    if paths.len() == 0 {
        seen
    } else {
        seen_after(seen, paths.drop_last()).insert(paths.last().hash())
    }
}

/// Those of the given store paths whose hash is neither in `seen` nor that of
/// an earlier one.
pub open spec fn fresh_paths(
    seen: Set<Seq<char>>,
    paths: Seq<StorePathView>,
) -> Seq<StorePathView>
    decreases paths.len(),
{
    if paths.len() == 0 {
        seq![]
    } else {
        let fresh = fresh_paths(seen, paths.drop_last());
        if seen_after(seen, paths.drop_last()).contains(paths.last().hash()) {
            fresh
        } else {
            fresh.push(paths.last())
        }
    }
}

impl EventLoopView {
    /// No more store paths are handled than may be at once, and none waits
    /// while another could be handled.
    pub open spec fn wf(self) -> bool {
        &&& self.handling <= MAX_CONCURRENT_STORE_PATHS
        &&& self.pending.len() > 0 ==> self.handling == MAX_CONCURRENT_STORE_PATHS
    }

    /// The state of an event loop that has yet to see its first event.
    pub open spec fn initial() -> Self {
        EventLoopView {
            seen: Set::empty(),
            closures: 0,
            handling: 0,
            pending: seq![],
            stop_requested: false,
            report: ActionReportView::empty(),
            upstream: 0,
        }
    }

    /// The number of store paths that were handled.
    pub open spec fn num_handled(self) -> nat {
        self.report.num_handled() + self.upstream
    }

    /// The number of those of the given store paths that can be handled at once.
    pub open spec fn num_started(self, paths: Seq<StorePathView>) -> nat {
        let num_fresh = fresh_paths(self.seen, paths).len();
        let num_free = (MAX_CONCURRENT_STORE_PATHS - self.handling) as nat;
        if num_fresh <= num_free {
            num_fresh
        } else {
            num_free
        }
    }

    /// The store paths of a closure that start being handled at once.
    pub open spec fn started(self, paths: Seq<StorePathView>) -> Seq<StorePathView> {
        fresh_paths(self.seen, paths).take(self.num_started(paths) as int)
    }

    /// The state once the closure that holds the given store paths was
    /// computed.
    pub open spec fn closure_computed(self, paths: Seq<StorePathView>) -> Self {
        EventLoopView {
            seen: seen_after(self.seen, paths),
            closures: (self.closures - 1) as nat,
            handling: self.handling + self.num_started(paths),
            pending: self.pending + fresh_paths(self.seen, paths).skip(
                self.num_started(paths) as int,
            ),
            ..self
        }
    }

    /// The state once a closure could not be computed.
    pub open spec fn closure_failed(self, path: StorePathView, error: Seq<char>) -> Self {
        EventLoopView {
            closures: (self.closures - 1) as nat,
            report: ActionReportView {
                path_closure_errors: self.report.path_closure_errors.push((path, error)),
                ..self.report
            },
            ..self
        }
    }

    /// The state once a store path was handled. The first of the store paths
    /// that wait takes its place.
    pub open spec fn path_handled(
        self,
        path: StorePathView,
        outcome: Result<PathOutcome, HandlePathErrorView>,
    ) -> Self {
        EventLoopView {
            handling: if self.pending.len() > 0 {
                self.handling
            } else {
                (self.handling - 1) as nat
            },
            pending: if self.pending.len() > 0 {
                self.pending.drop_first()
            } else {
                self.pending
            },
            report: self.report.handled(path, outcome),
            upstream: if outcome == Ok::<PathOutcome, HandlePathErrorView>(
                PathOutcome::InUpstreamCache,
            ) {
                self.upstream + 1
            } else {
                self.upstream
            },
            ..self
        }
    }
}

impl EventLoop {
    /// The contents.
    pub closed spec fn view(&self) -> EventLoopView {
        EventLoopView {
            seen: Set::new(
                |hash: Seq<char>| self.seen_store_hashes@.contains(encode_utf8(hash)),
            ),
            closures: self.num_store_closures as nat,
            handling: self.num_handled_paths as nat,
            pending: store_path::path_views(self.pending_store_paths@),
            stop_requested: self.stop_requested,
            report: self.report@,
            upstream: self.num_upstream_paths@,
        }
    }

    /// An event loop that has yet to see its first event.
    pub fn new() -> (event_loop: Self)
        ensures
            event_loop@ == EventLoopView::initial(),
            event_loop@.wf(),
    {
        let event_loop = EventLoop {
            seen_store_hashes: ByteSet::new(),
            num_store_closures: 0,
            num_handled_paths: 0,
            pending_store_paths: VecDeque::new(),
            stop_requested: false,
            report: ActionReport::default(),
            num_upstream_paths: Ghost(0),
        };
        assert(event_loop@ =~= EventLoopView::initial());
        event_loop
    }

    /// Whether the daemon is to stop, and every store path that it has to
    /// handle is known.
    pub fn is_ready_to_drain(&self) -> (ready: bool)
        ensures
            ready == (self@.stop_requested && self@.closures == 0),
    {
        self.stop_requested && self.num_store_closures == 0
    }

    /// Decides what to do about a message.
    pub fn on_message(&mut self, message: Result<Event, ReceiveError>) -> (action: MessageAction)
        requires
            old(self)@.wf(),
            old(self)@.closures < usize::MAX,
        ensures
            final(self)@.wf(),
            match message {
                Ok(Event::PushStorePath(path)) => {
                    &&& action == MessageAction::ComputeClosure(path)
                    &&& final(self)@ == EventLoopView {
                        closures: old(self)@.closures + 1,
                        ..old(self)@
                    }
                },
                Ok(Event::Stop) => {
                    &&& action is KeepForProgress
                    &&& final(self)@ == EventLoopView { stop_requested: true, ..old(self)@ }
                },
                Err(error) => {
                    &&& action == MessageAction::ReportError(error)
                    &&& final(self)@ == old(self)@
                },
            },
    {
        match message {
            Ok(Event::PushStorePath(path)) => {
                self.num_store_closures = self.num_store_closures + 1;
                MessageAction::ComputeClosure(path)
            },
            Ok(Event::Stop) => {
                self.stop_requested = true;
                MessageAction::KeepForProgress
            },
            Err(error) => MessageAction::ReportError(error),
        }
    }

    /// Takes a closure that was computed, or that could not be. Returns the
    /// store paths to start handling now; those that were seen before are left
    /// out, and those for which there is no room wait.
    pub fn on_store_closure(
        &mut self,
        closure: Result<Vec<StorePath>, (StorePath, String)>,
    ) -> (started: Vec<StorePath>)
        requires
            old(self)@.wf(),
            old(self)@.closures > 0,
        ensures
            final(self)@.wf(),
            match closure {
                Ok(paths) => {
                    let paths = store_path::path_views(paths@);
                    &&& store_path::path_views(started@) == old(self)@.started(paths)
                    &&& final(self)@ == old(self)@.closure_computed(paths)
                },
                Err((path, error)) => {
                    &&& started@.len() == 0
                    &&& final(self)@ == old(self)@.closure_failed(path@, error@)
                },
            },
    {
        let ghost before = self@;
        self.num_store_closures = self.num_store_closures - 1;
        match closure {
            Ok(paths) => self.start_paths(paths),
            Err((path, error)) => {
                self.report.path_closure_errors.push((path, error));
                assert(self@ =~= before.closure_failed(path@, error@));
                Vec::new()
            },
        }
    }

    /// Starts handling those of the given store paths that were not seen
    /// before, as far as there is room for them, and lets the others wait.
    fn start_paths(&mut self, paths: Vec<StorePath>) -> (started: Vec<StorePath>)
        requires
            old(self)@.wf(),
        ensures
            final(self)@.wf(),
            store_path::path_views(started@) == old(self)@.started(store_path::path_views(paths@)),
            final(self)@ == (EventLoopView {
                closures: old(self)@.closures,
                ..old(self)@.closure_computed(store_path::path_views(paths@))
            }),
    {
        let ghost before = self@;
        let ghost all = store_path::path_views(paths@);
        let mut started: Vec<StorePath> = Vec::new();
        proof {
            assert(all.take(0) =~= Seq::<StorePathView>::empty());
            assert(store_path::path_views(started@) =~= before.started(all.take(0)));
            assert(self@ =~= (EventLoopView {
                closures: before.closures,
                ..before.closure_computed(all.take(0))
            }));
        }
        for path in iter: paths
            invariant
                before.wf(),
                self@.wf(),
                all == store_path::path_views(paths@),
                iter.seq() == paths@,
                store_path::path_views(started@) == before.started(
                    all.take(iter.index() as int),
                ),
                self@ == (EventLoopView {
                    closures: before.closures,
                    ..before.closure_computed(all.take(iter.index() as int))
                }),
        {
            let ghost n = iter.index() as int;
            let ghost prefix = all.take(n);
            let ghost old_started = started@;
            let ghost current = self@;
            proof {
                assert(all.take(n + 1).drop_last() =~= prefix);
                assert(all.take(n + 1).last() == path@);
            }
            let is_new: bool = self.seen_store_hashes.insert(path.basename.hash.as_str().as_bytes());
            proof {
                lemma_insert_seen(current.seen, self@.seen, path@.hash());
            }
            if is_new {
                let ghost fresh = fresh_paths(before.seen, prefix);
                if self.num_handled_paths < MAX_CONCURRENT_STORE_PATHS {
                    self.num_handled_paths = self.num_handled_paths + 1;
                    started.push(path);
                    proof {
                        assert(fresh.push(path@).take(fresh.len() as int + 1) =~= fresh.take(
                            fresh.len() as int,
                        ).push(path@));
                    }
                } else {
                    self.pending_store_paths.push_back(path);
                    proof {
                        let k = before.num_started(prefix) as int;
                        assert(k <= fresh.len());
                        assert(fresh.push(path@).skip(k) =~= fresh.skip(k).push(path@));
                        assert(self@.pending =~= current.pending.push(path@));
                        assert(before.pending + fresh.skip(k).push(path@) =~= (before.pending
                            + fresh.skip(k)).push(path@));
                    }
                }
            }
            proof {
                assert(store_path::path_views(started@) =~= before.started(all.take(n + 1)));
                assert(self@ =~= (EventLoopView {
                    closures: before.closures,
                    ..before.closure_computed(all.take(n + 1))
                }));
            }
        }
        assert(all.take(all.len() as int) =~= all);
        started
    }

    /// Whether the report has room for the outcome of handling a store path.
    pub fn has_room_for(&self, outcome: &Result<PathOutcome, HandlePathError>) -> (has_room: bool)
        ensures
            has_room == match outcome {
                Ok(PathOutcome::Pushed { num_bytes }) => {
                    &&& self@.report.num_bytes_pushed + *num_bytes <= u64::MAX
                    &&& self@.report.num_paths_pushed < u32::MAX
                },
                Ok(PathOutcome::InCache) => self@.report.num_paths_skipped < u32::MAX,
                Ok(PathOutcome::InUpstreamCache) => true,
                Err(_) => true,
            },
    {
        match outcome {
            Ok(PathOutcome::Pushed { num_bytes }) => {
                *num_bytes <= u64::MAX - self.report.num_bytes_pushed
                    && self.report.num_paths_pushed < u32::MAX
            },
            Ok(PathOutcome::InCache) => self.report.num_paths_skipped < u32::MAX,
            Ok(PathOutcome::InUpstreamCache) => true,
            Err(_) => true,
        }
    }

    /// Takes the outcome of handling a store path. Returns the store path to
    /// start handling in its place.
    pub fn on_path_handled(
        &mut self,
        path: StorePath,
        outcome: Result<PathOutcome, HandlePathError>,
    ) -> (started: Option<StorePath>)
        requires
            old(self)@.wf(),
            old(self)@.handling > 0,
            outcome matches Ok(PathOutcome::Pushed { num_bytes }) ==> {
                &&& old(self)@.report.num_bytes_pushed + num_bytes <= u64::MAX
                &&& old(self)@.report.num_paths_pushed < u32::MAX
            },
            outcome matches Ok(PathOutcome::InCache) ==> old(self)@.report.num_paths_skipped
                < u32::MAX,
        ensures
            final(self)@.wf(),
            final(self)@ == old(self)@.path_handled(path@, outcome_view(outcome)),
            match outcome {
                Ok(PathOutcome::Pushed { num_bytes }) => {
                    &&& final(self)@.report.num_bytes_pushed == old(self)@.report.num_bytes_pushed
                        + num_bytes
                    &&& final(self)@.report.num_paths_pushed == old(self)@.report.num_paths_pushed
                        + 1
                },
                _ => {
                    &&& final(self)@.report.num_bytes_pushed == old(self)@.report.num_bytes_pushed
                    &&& final(self)@.report.num_paths_pushed == old(self)@.report.num_paths_pushed
                },
            },
            match started {
                Some(path) => old(self)@.pending.len() > 0 && path@ == old(self)@.pending[0],
                None => old(self)@.pending.len() == 0,
            },
    {
        let ghost before = self@;
        let ghost pending = self.pending_store_paths@;
        proof {
            if outcome matches Ok(PathOutcome::InUpstreamCache) {
                self.num_upstream_paths@ = self.num_upstream_paths@ + 1;
            }
        }
        self.report.record(path, outcome);
        let started: Option<StorePath> = self.pending_store_paths.pop_front();
        if started.is_none() {
            self.num_handled_paths = self.num_handled_paths - 1;
        }
        proof {
            if pending.len() > 0 {
                assert(before.pending[0] == pending[0]@);
            }
            assert(self@ =~= before.path_handled(path@, outcome_view(outcome)));
        }
        started
    }

    /// The number of store paths left to handle, as it is reported to the
    /// client that asked the daemon to stop.
    pub fn num_paths_left_to_handle(&self) -> (num_paths: u32)
        ensures
            num_paths == (self@.handling + self@.pending.len()) as u32,
    {
        let num_paths: u128 = self.num_handled_paths as u128
            + self.pending_store_paths.len() as u128;
        assert(self@.pending.len() == self.pending_store_paths@.len());
        #[verifier::truncate]
        (num_paths as u32)
    }

    /// Whether every store path was handled.
    pub fn is_drained(&self) -> (drained: bool)
        requires
            self@.wf(),
        ensures
            drained == (self@.handling == 0),
            drained ==> self@.pending.len() == 0,
    {
        self.num_handled_paths == 0
    }

    /// Returns the report on what became of the store paths.
    pub fn into_report(self) -> (report: ActionReport)
        ensures
            report@ == self@.report,
    {
        self.report
    }
}

/// Adding a hash to the set of byte strings that stands for `before` makes it
/// stand for `before` with the hash.
proof fn lemma_insert_seen(before: Set<Seq<char>>, after: Set<Seq<char>>, hash: Seq<char>)
    requires
        forall|h: Seq<char>|
            after.contains(h) <==> before.contains(h) || encode_utf8(h) == encode_utf8(hash),
    ensures
        after == before.insert(hash),
{
    assert forall|h: Seq<char>| after.contains(h) <==> before.insert(hash).contains(h) by {
        if encode_utf8(h) == encode_utf8(hash) {
            text::lemma_encode_injective(h, hash);
        }
    }
    assert(after =~= before.insert(hash));
}

/// Of the store paths of a closure, exactly one is handled for each hash that
/// was not seen before: the hashes of those that are fresh were not seen, are
/// distinct, and are all of the hashes that are new.
pub proof fn law_each_hash_is_handled_once(seen: Set<Seq<char>>, paths: Seq<StorePathView>)
    ensures
        forall|i: int|
            0 <= i < fresh_paths(seen, paths).len() ==> !seen.contains(
                #[trigger] fresh_paths(seen, paths)[i].hash(),
            ) && paths.contains(fresh_paths(seen, paths)[i]),
        forall|i: int, j: int|
            0 <= i < j < fresh_paths(seen, paths).len() ==> #[trigger] fresh_paths(
                seen,
                paths,
            )[i].hash() != #[trigger] fresh_paths(seen, paths)[j].hash(),
        forall|hash: Seq<char>|
            #[trigger] seen_after(seen, paths).contains(hash) <==> seen.contains(hash) || exists|
                i: int,
            |
                0 <= i < fresh_paths(seen, paths).len() && #[trigger] fresh_paths(
                    seen,
                    paths,
                )[i].hash() == hash,
        forall|i: int|
            0 <= i < paths.len() ==> seen_after(seen, paths).contains(
                #[trigger] paths[i].hash(),
            ),
    decreases paths.len(),
{
    if paths.len() > 0 {
        let init = paths.drop_last();
        let last = paths.last();
        law_each_hash_is_handled_once(seen, init);
        let before = fresh_paths(seen, init);
        let fresh = fresh_paths(seen, paths);
        assert forall|i: int| 0 <= i < fresh.len() implies !seen.contains(
            #[trigger] fresh[i].hash(),
        ) && paths.contains(fresh[i]) by {
            if i < before.len() {
                assert(fresh[i] == before[i]);
                assert(!seen.contains(before[i].hash()));
                assert(init.contains(before[i]));
                let k = choose|k: int| 0 <= k < init.len() && init[k] == before[i];
                assert(paths[k] == fresh[i]);
            } else {
                assert(paths[paths.len() - 1] == fresh[i]);
            }
        }
        assert forall|i: int, j: int| 0 <= i < j < fresh.len() implies #[trigger] fresh[i].hash()
            != #[trigger] fresh[j].hash() by {
            assert(fresh[i] == before[i]);
            if j < before.len() {
                assert(fresh[j] == before[j]);
            } else {
                assert(before[i].hash() == fresh[i].hash());
                assert(seen_after(seen, init).contains(before[i].hash()));
            }
        }
        assert forall|hash: Seq<char>| #[trigger] seen_after(seen, paths).contains(hash)
            <==> seen.contains(hash) || exists|i: int|
            0 <= i < fresh.len() && #[trigger] fresh[i].hash() == hash by {
            if seen_after(seen, init).contains(hash) && !seen.contains(hash) {
                let i = choose|i: int|
                    0 <= i < before.len() && #[trigger] before[i].hash() == hash;
                assert(fresh[i].hash() == hash);
            } else if hash == last.hash() && !seen_after(seen, init).contains(hash) {
                assert(fresh[fresh.len() - 1].hash() == hash);
            }
            if exists|i: int| 0 <= i < fresh.len() && #[trigger] fresh[i].hash() == hash {
                let i = choose|i: int| 0 <= i < fresh.len() && #[trigger] fresh[i].hash() == hash;
                if i < before.len() {
                    assert(before[i].hash() == hash);
                    assert(seen_after(seen, init).contains(hash));
                } else {
                    assert(hash == last.hash());
                }
            }
        }
        assert forall|i: int| 0 <= i < paths.len() implies seen_after(seen, paths).contains(
            #[trigger] paths[i].hash(),
        ) by {
            if i < init.len() {
                assert(init[i].hash() == paths[i].hash());
            }
        }
    }
}

/// The number of hashes that a closure adds is the number of its fresh paths.
proof fn lemma_seen_len(seen: Set<Seq<char>>, paths: Seq<StorePathView>)
    requires
        seen.finite(),
    ensures
        seen_after(seen, paths).finite(),
        seen_after(seen, paths).len() == seen.len() + fresh_paths(seen, paths).len(),
    decreases paths.len(),
{
    if paths.len() > 0 {
        lemma_seen_len(seen, paths.drop_last());
    }
}

impl EventLoopView {
    /// Whether every store path that was seen is being handled, waits, is
    /// accounted for in the report, or was skipped as an upstream cache has it.
    pub open spec fn all_accounted_for(self) -> bool {
        &&& self.seen.finite()
        &&& self.seen.len() == self.handling + self.pending.len() + self.num_handled()
    }
}

/// No store path is lost, and none is counted twice: whatever happens, the
/// store paths that were seen are those being handled, those that wait, those
/// that the report accounts for and those that were skipped as an upstream cache
/// has them.
pub proof fn law_no_path_is_lost(
    state: EventLoopView,
    paths: Seq<StorePathView>,
    path: StorePathView,
    error: Seq<char>,
    outcome: Result<PathOutcome, HandlePathErrorView>,
)
    requires
        state.wf(),
        state.all_accounted_for(),
    ensures
        EventLoopView::initial().all_accounted_for(),
        state.closure_computed(paths).all_accounted_for(),
        state.closure_failed(path, error).all_accounted_for(),
        state.handling > 0 ==> state.path_handled(path, outcome).all_accounted_for(),
{
    lemma_seen_len(state.seen, paths);
}

/// At no time are more store paths handled than may be at once, and none waits
/// while another could be handled.
pub proof fn law_concurrency_is_bounded(
    state: EventLoopView,
    paths: Seq<StorePathView>,
    path: StorePathView,
    error: Seq<char>,
    outcome: Result<PathOutcome, HandlePathErrorView>,
)
    requires
        state.wf(),
    ensures
        EventLoopView::initial().wf(),
        state.closure_computed(paths).wf(),
        state.closure_failed(path, error).wf(),
        state.handling > 0 ==> state.path_handled(path, outcome).wf(),
{
}

/// Once no store path is being handled, the report accounts for each store path
/// that was seen, but for those that were skipped as an upstream cache has them.
pub proof fn law_drained_report_is_complete(state: EventLoopView)
    requires
        state.wf(),
        state.all_accounted_for(),
        state.handling == 0,
    ensures
        state.pending.len() == 0,
        state.report.num_handled() + state.upstream == state.seen.len(),
{
}

/// What can happen to the event loop.
pub enum LoopStep {
    PushRequested,
    StopRequested,
    ClosureComputed(Seq<StorePathView>),
    ClosureFailed(StorePathView, Seq<char>),
    PathHandled(StorePathView, Result<PathOutcome, HandlePathErrorView>),
}

impl EventLoopView {
    /// Whether a thing can happen: a closure is there to be computed, or a store
    /// path to be handled.
    pub open spec fn awaits(self, step: LoopStep) -> bool {
        match step {
            LoopStep::PushRequested => true,
            LoopStep::StopRequested => true,
            LoopStep::ClosureComputed(_) => self.closures > 0,
            LoopStep::ClosureFailed(_, _) => self.closures > 0,
            LoopStep::PathHandled(_, _) => self.handling > 0,
        }
    }

    /// The state once a thing has happened.
    pub open spec fn after(self, step: LoopStep) -> Self {
        match step {
            LoopStep::PushRequested => EventLoopView { closures: self.closures + 1, ..self },
            LoopStep::StopRequested => EventLoopView { stop_requested: true, ..self },
            LoopStep::ClosureComputed(paths) => self.closure_computed(paths),
            LoopStep::ClosureFailed(path, error) => self.closure_failed(path, error),
            LoopStep::PathHandled(path, outcome) => self.path_handled(path, outcome),
        }
    }

    /// The store paths to handle that become known with a thing that happens.
    pub open spec fn found_in(self, step: LoopStep) -> Seq<StorePathView> {
        match step {
            LoopStep::ClosureComputed(paths) => fresh_paths(self.seen, paths),
            _ => seq![],
        }
    }

    /// The store paths that start being handled with a thing that happens.
    pub open spec fn started_in(self, step: LoopStep) -> Seq<StorePathView> {
        match step {
            LoopStep::ClosureComputed(paths) => self.started(paths),
            LoopStep::PathHandled(_, _) => if self.pending.len() > 0 {
                seq![self.pending[0]]
            } else {
                seq![]
            },
            _ => seq![],
        }
    }
}

/// The state of the event loop after the given things have happened.
pub open spec fn reached(steps: Seq<LoopStep>) -> EventLoopView
    decreases steps.len(),
{
    if steps.len() == 0 {
        EventLoopView::initial()
    } else {
        reached(steps.drop_last()).after(steps.last())
    }
}

/// Whether the given things can happen in this order.
pub open spec fn can_happen(steps: Seq<LoopStep>) -> bool
    decreases steps.len(),
{
    steps.len() > 0 ==> can_happen(steps.drop_last()) && reached(steps.drop_last()).awaits(
        steps.last(),
    )
}

/// The store paths to handle that have become known, in this order.
pub open spec fn all_found(steps: Seq<LoopStep>) -> Seq<StorePathView>
    decreases steps.len(),
{
    if steps.len() == 0 {
        seq![]
    } else {
        all_found(steps.drop_last()) + reached(steps.drop_last()).found_in(steps.last())
    }
}

/// The store paths that have started being handled, in this order.
pub open spec fn all_started(steps: Seq<LoopStep>) -> Seq<StorePathView>
    decreases steps.len(),
{
    if steps.len() == 0 {
        seq![]
    } else {
        all_started(steps.drop_last()) + reached(steps.drop_last()).started_in(steps.last())
    }
}

/// Whatever happens, in whatever order, the daemon starts handling store paths
/// in the order in which they become known, no two of them with the same hash.
/// Those that it has not started are those that wait, and those that it has
/// started are being handled, are accounted for in the report, or were skipped as
/// an upstream cache has them.
pub proof fn law_life_of_the_daemon(steps: Seq<LoopStep>)
    requires
        can_happen(steps),
    ensures
        reached(steps).wf(),
        reached(steps).all_accounted_for(),
        all_started(steps) + reached(steps).pending == all_found(steps),
        all_started(steps).len() == reached(steps).handling + reached(steps).num_handled(),
        forall|i: int, j: int|
            0 <= i < j < all_found(steps).len() ==> #[trigger] all_found(steps)[i].hash()
                != #[trigger] all_found(steps)[j].hash(),
        forall|hash: Seq<char>|
            #[trigger] reached(steps).seen.contains(hash) <==> exists|i: int|
                0 <= i < all_found(steps).len() && #[trigger] all_found(steps)[i].hash() == hash,
    decreases steps.len(),
{
    if steps.len() == 0 {
        assert(all_started(steps) + reached(steps).pending =~= all_found(steps));
    } else {
        let front = steps.drop_last();
        let step = steps.last();
        let before = reached(front);
        let after = reached(steps);
        law_life_of_the_daemon(front);
        let known = all_found(front);
        let found = before.found_in(step);
        let all = all_found(steps);
        assert(all == known + found);
        match step {
            LoopStep::ClosureComputed(paths) => {
                lemma_seen_len(before.seen, paths);
                law_each_hash_is_handled_once(before.seen, paths);
                let started = before.started(paths);
                if before.pending.len() > 0 {
                    assert(started =~= seq![]);
                } else {
                    assert(before.pending =~= seq![]);
                }
                let waiting = found.skip(before.num_started(paths) as int);
                assert(started + waiting =~= found);
                assert(after.pending =~= before.pending + waiting);
                assert(all_started(steps) + after.pending =~= known + found);
            },
            LoopStep::PathHandled(_, _) => {
                assert(found =~= seq![]);
                if before.pending.len() > 0 {
                    assert(seq![before.pending[0]] + after.pending =~= before.pending);
                }
                assert(all_started(steps) + after.pending =~= all_started(front)
                    + before.pending);
                assert(all =~= known);
            },
            _ => {
                assert(found =~= seq![]);
                assert(all_started(steps) =~= all_started(front));
                assert(all =~= known);
            },
        }
        assert forall|i: int, j: int| 0 <= i < j < all.len() implies #[trigger] all[i].hash()
            != #[trigger] all[j].hash() by {
            if j < known.len() {
                assert(known[i].hash() != known[j].hash());
            } else if i < known.len() {
                assert(before.seen.contains(known[i].hash()));
                assert(!before.seen.contains(found[j - known.len()].hash()));
            } else {
                assert(found[i - known.len()].hash() != found[j - known.len()].hash());
            }
        }
        assert forall|hash: Seq<char>| #[trigger] after.seen.contains(hash) <==> exists|i: int|
            0 <= i < all.len() && #[trigger] all[i].hash() == hash by {
            if before.seen.contains(hash) {
                let i = choose|i: int| 0 <= i < known.len() && #[trigger] known[i].hash() == hash;
                assert(all[i].hash() == hash);
            } else if after.seen.contains(hash) {
                let i = choose|i: int| 0 <= i < found.len() && #[trigger] found[i].hash() == hash;
                assert(all[known.len() + i].hash() == hash);
            }
            if exists|i: int| 0 <= i < all.len() && #[trigger] all[i].hash() == hash {
                let i = choose|i: int| 0 <= i < all.len() && #[trigger] all[i].hash() == hash;
                if i < known.len() {
                    assert(known[i].hash() == hash);
                    assert(before.seen.contains(hash));
                } else {
                    assert(found[i - known.len()].hash() == hash);
                }
            }
        }
    }
}

/// The store paths that were handled, in this order.
pub open spec fn all_handled(steps: Seq<LoopStep>) -> Seq<StorePathView>
    decreases steps.len(),
{
    if steps.len() == 0 {
        seq![]
    } else {
        match steps.last() {
            LoopStep::PathHandled(path, _) => all_handled(steps.drop_last()).push(path),
            _ => all_handled(steps.drop_last()),
        }
    }
}

/// The store paths that have started being handled, and are not yet.
pub open spec fn in_progress(steps: Seq<LoopStep>) -> Set<StorePathView>
    decreases steps.len(),
{
    if steps.len() == 0 {
        Set::empty()
    } else {
        let before = in_progress(steps.drop_last());
        let left = match steps.last() {
            LoopStep::PathHandled(path, _) => before.remove(path),
            _ => before,
        };
        left.union(reached(steps.drop_last()).started_in(steps.last()).to_set())
    }
}

/// Whether each store path of which an outcome came was being handled.
pub open spec fn faithful(steps: Seq<LoopStep>) -> bool
    decreases steps.len(),
{
    steps.len() > 0 ==> {
        &&& faithful(steps.drop_last())
        &&& steps.last() matches LoopStep::PathHandled(path, _) ==> in_progress(
            steps.drop_last(),
        ).contains(path)
    }
}

/// Each store path has at most one outcome, and once none is being handled each
/// store path that became known has one.
pub proof fn law_each_path_has_one_outcome(steps: Seq<LoopStep>)
    requires
        can_happen(steps),
        faithful(steps),
    ensures
        forall|i: int, j: int|
            0 <= i < j < all_handled(steps).len() ==> #[trigger] all_handled(steps)[i].hash()
                != #[trigger] all_handled(steps)[j].hash(),
        forall|path: StorePathView| #[trigger]
            all_started(steps).contains(path) <==> in_progress(steps).contains(path)
                || all_handled(steps).contains(path),
        reached(steps).handling == 0 ==> forall|path: StorePathView| #[trigger]
            all_found(steps).contains(path) <==> all_handled(steps).contains(path),
        all_handled(steps).len() == reached(steps).num_handled(),
{
    law_life_of_the_daemon(steps);
    lemma_outcomes(steps);
    let handled = all_handled(steps);
    let found = all_found(steps);
    assert forall|i: int, j: int| 0 <= i < j < handled.len() implies #[trigger] handled[i].hash()
        != #[trigger] handled[j].hash() by {
        let started = all_started(steps);
        assert(handled.contains(handled[i]) && handled.contains(handled[j]));
        assert(started.contains(handled[i]) && started.contains(handled[j]));
        let a = choose|a: int| 0 <= a < started.len() && started[a] == handled[i];
        let b = choose|b: int| 0 <= b < started.len() && started[b] == handled[j];
        assert(found[a] == started[a] && found[b] == started[b]);
        assert(a != b);
        assert(found[a].hash() != found[b].hash());
    }
    if reached(steps).handling == 0 {
        assert(found =~= all_started(steps));
        assert(in_progress(steps) =~= Set::empty());
    }
}

/// Those that have started are being handled, or were, and not both.
proof fn lemma_outcomes(steps: Seq<LoopStep>)
    requires
        can_happen(steps),
        faithful(steps),
    ensures
        in_progress(steps).finite(),
        in_progress(steps).len() == reached(steps).handling,
        all_handled(steps).no_duplicates(),
        all_handled(steps).len() == reached(steps).num_handled(),
        forall|path: StorePathView| #[trigger]
            all_started(steps).contains(path) <==> in_progress(steps).contains(path)
                || all_handled(steps).contains(path),
        forall|path: StorePathView| #[trigger]
            in_progress(steps).contains(path) ==> !all_handled(steps).contains(path),
    decreases steps.len(),
{
    if steps.len() > 0 {
        let front = steps.drop_last();
        let step = steps.last();
        let before = reached(front);
        lemma_outcomes(front);
        law_life_of_the_daemon(front);
        law_life_of_the_daemon(steps);
        let started = all_started(front);
        let new = before.started_in(step);
        let all = all_started(steps);
        assert(all == started + new);
        let found = all_found(steps);
        // None of those that start now has started before.
        assert forall|i: int, j: int| 0 <= i < j < all.len() implies all[i] != all[j] by {
            assert(found[i] == all[i] && found[j] == all[j]);
            assert(found[i].hash() != found[j].hash());
        }
        assert forall|k: int| 0 <= k < new.len() implies !started.contains(#[trigger] new[k]) by {
            assert(all[started.len() + k] == new[k]);
            if started.contains(new[k]) {
                let i = choose|i: int| 0 <= i < started.len() && started[i] == new[k];
                assert(all[i] == started[i]);
            }
        }
        assert(new.no_duplicates()) by {
            assert forall|i: int, j: int| 0 <= i < new.len() && 0 <= j < new.len() && i != j implies
                new[i] != new[j] by {
                assert(all[started.len() + i] == new[i] && all[started.len() + j] == new[j]);
            }
        }
        new.unique_seq_to_set();
        let earlier = in_progress(front);
        let left = match step {
            LoopStep::PathHandled(path, _) => earlier.remove(path),
            _ => earlier,
        };
        assert(left.disjoint(new.to_set())) by {
            assert forall|path: StorePathView| left.contains(path) && new.contains(path) implies
                false by {
                let k = choose|k: int| 0 <= k < new.len() && new[k] == path;
                assert(earlier.contains(path));
                assert(started.contains(path));
            }
        }
        vstd::set_lib::lemma_set_disjoint_lens(left, new.to_set());
        let handled = all_handled(steps);
        let handled_before = all_handled(front);
        assert forall|path: StorePathView| #[trigger] all.contains(path) <==> started.contains(path)
            || new.contains(path) by {
            if started.contains(path) {
                let i = choose|i: int| 0 <= i < started.len() && started[i] == path;
                assert(all[i] == path);
            }
            if new.contains(path) {
                let k = choose|k: int| 0 <= k < new.len() && new[k] == path;
                assert(all[started.len() + k] == path);
            }
        }
        if let LoopStep::PathHandled(path, _) = step {
            assert(!handled_before.contains(path));
            assert forall|p: StorePathView| #[trigger] handled.contains(p) <==> p == path
                || handled_before.contains(p) by {
                assert(handled[handled.len() - 1] == path);
                if handled_before.contains(p) {
                    let i = choose|i: int| 0 <= i < handled_before.len() && handled_before[i] == p;
                    assert(handled[i] == p);
                }
            }
        }
    }
}

/// The store paths that were handled with the given outcome, in this order.
pub open spec fn handled_with(steps: Seq<LoopStep>, outcome: PathOutcome) -> Seq<StorePathView>
    decreases steps.len(),
{
    if steps.len() == 0 {
        seq![]
    } else {
        let before = handled_with(steps.drop_last(), outcome);
        match steps.last() {
            LoopStep::PathHandled(path, Ok(last)) => if last == outcome {
                before.push(path)
            } else {
                before
            },
            _ => before,
        }
    }
}

/// The number of skipped store paths in the report is the number of those, each
/// another one, that were skipped as the cache itself has them. Those that were
/// skipped for an upstream cache's sake are counted apart.
pub proof fn law_skipped_paths_are_in_the_cache(steps: Seq<LoopStep>)
    requires
        can_happen(steps),
        faithful(steps),
    ensures
        reached(steps).report.num_paths_skipped == handled_with(steps, PathOutcome::InCache).len(),
        reached(steps).upstream == handled_with(steps, PathOutcome::InUpstreamCache).len(),
        forall|i: int, j: int|
            #![trigger handled_with(steps, PathOutcome::InCache)[i], handled_with(
                steps,
                PathOutcome::InCache,
            )[j]]
            0 <= i < j < handled_with(steps, PathOutcome::InCache).len() ==> handled_with(
                steps,
                PathOutcome::InCache,
            )[i].hash() != handled_with(steps, PathOutcome::InCache)[j].hash(),
    decreases steps.len(),
{
    if steps.len() > 0 {
        let front = steps.drop_last();
        law_skipped_paths_are_in_the_cache(front);
        law_each_path_has_one_outcome(steps);
        lemma_handled_with(front, PathOutcome::InCache);
        let before = handled_with(front, PathOutcome::InCache);
        let skipped = handled_with(steps, PathOutcome::InCache);
        assert forall|i: int, j: int|
            #![trigger skipped[i], skipped[j]]
            0 <= i < j < skipped.len() implies skipped[i].hash() != skipped[j].hash() by {
            assert(skipped[i] == before[i]);
            if j < before.len() {
                assert(skipped[j] == before[j]);
            } else {
                let handled = all_handled(steps);
                let earlier = all_handled(front);
                assert(earlier.contains(before[i]));
                let k = choose|k: int| 0 <= k < earlier.len() && earlier[k] == before[i];
                assert(handled[k] == before[i]);
                assert(handled[handled.len() - 1] == skipped[j]);
                assert(handled[k].hash() != handled[handled.len() - 1].hash());
            }
        }
    }
}

/// Those that were handled with some outcome were handled.
proof fn lemma_handled_with(steps: Seq<LoopStep>, outcome: PathOutcome)
    ensures
        forall|i: int|
            0 <= i < handled_with(steps, outcome).len() ==> all_handled(steps).contains(
                #[trigger] handled_with(steps, outcome)[i],
            ),
    decreases steps.len(),
{
    if steps.len() > 0 {
        let front = steps.drop_last();
        lemma_handled_with(front, outcome);
        let before = handled_with(front, outcome);
        let some = handled_with(steps, outcome);
        let handled = all_handled(steps);
        let earlier = all_handled(front);
        assert forall|i: int| 0 <= i < some.len() implies handled.contains(#[trigger] some[i]) by {
            if i < before.len() {
                assert(some[i] == before[i]);
                assert(earlier.contains(before[i]));
                let k = choose|k: int| 0 <= k < earlier.len() && earlier[k] == before[i];
                assert(handled[k] == some[i]);
            } else {
                assert(handled[handled.len() - 1] == some[i]);
            }
        }
    }
}

/// The report tells what happened: how many store paths were pushed, and how
/// many bytes in all, how many were skipped as the cache has them, and each store
/// path that failed, with its error, in the order in which they did.
pub proof fn law_report_tells_what_happened(steps: Seq<LoopStep>)
    ensures
        reached(steps).report.num_bytes_pushed == steps.fold_left(
            0nat,
            |sum: nat, step: LoopStep|
                match step {
                    LoopStep::PathHandled(_, Ok(PathOutcome::Pushed { num_bytes })) => sum
                        + num_bytes as nat,
                    _ => sum,
                },
        ),
        reached(steps).report.num_paths_pushed == steps.filter(
            |step: LoopStep| step matches LoopStep::PathHandled(_, Ok(PathOutcome::Pushed { .. })),
        ).len(),
        reached(steps).report.num_paths_skipped == steps.filter(
            |step: LoopStep| step matches LoopStep::PathHandled(_, Ok(PathOutcome::InCache)),
        ).len(),
        reached(steps).report.path_handling_errors.map_values(
            |error: (StorePathView, HandlePathErrorView)|
                LoopStep::PathHandled(error.0, Err(error.1)),
        ) == steps.filter(|step: LoopStep| step matches LoopStep::PathHandled(_, Err(_))),
        reached(steps).report.path_closure_errors.map_values(
            |error: (StorePathView, Seq<char>)| LoopStep::ClosureFailed(error.0, error.1),
        ) == steps.filter(|step: LoopStep| step is ClosureFailed),
    decreases steps.len(),
{
    reveal(Seq::filter);
    let failed = |error: (StorePathView, HandlePathErrorView)|
        LoopStep::PathHandled(error.0, Err(error.1));
    let unknown = |error: (StorePathView, Seq<char>)| LoopStep::ClosureFailed(error.0, error.1);
    let report = reached(steps).report;
    if steps.len() == 0 {
        assert(report.path_handling_errors.map_values(failed) =~= seq![]);
        assert(report.path_closure_errors.map_values(unknown) =~= seq![]);
    } else {
        let front = steps.drop_last();
        law_report_tells_what_happened(front);
        let before = reached(front).report;
        match steps.last() {
            LoopStep::PathHandled(path, Err(error)) => {
                assert(report.path_handling_errors.map_values(failed)
                    =~= before.path_handling_errors.map_values(failed).push(steps.last()));
            },
            LoopStep::ClosureFailed(path, error) => {
                assert(report.path_closure_errors.map_values(unknown)
                    =~= before.path_closure_errors.map_values(unknown).push(steps.last()));
            },
            _ => {},
        }
    }
}

/// A closure is being computed for each store path that a client asked to push
/// and whose closure is neither known nor failed, the daemon is to stop exactly
/// if a client asked it to, and at most 32 store paths are handled at once, all
/// of that number if any waits.
pub proof fn law_state_tells_what_is_going_on(steps: Seq<LoopStep>)
    requires
        can_happen(steps),
    ensures
        reached(steps).closures + steps.filter(
            |step: LoopStep| step is ClosureComputed || step is ClosureFailed,
        ).len() == steps.filter(|step: LoopStep| step is PushRequested).len(),
        reached(steps).stop_requested <==> exists|i: int|
            0 <= i < steps.len() && (#[trigger] steps[i]) is StopRequested,
        reached(steps).handling <= 32,
        reached(steps).pending.len() > 0 ==> reached(steps).handling == 32,
    decreases steps.len(),
{
    reveal(Seq::filter);
    law_life_of_the_daemon(steps);
    if steps.len() > 0 {
        let front = steps.drop_last();
        law_state_tells_what_is_going_on(front);
        if exists|i: int| 0 <= i < front.len() && (#[trigger] front[i]) is StopRequested {
            let i = choose|i: int| 0 <= i < front.len() && (#[trigger] front[i]) is StopRequested;
            assert(steps[i] is StopRequested);
        }
        if steps.last() is StopRequested {
            assert(steps[steps.len() - 1] is StopRequested);
        }
        if exists|i: int| 0 <= i < steps.len() && (#[trigger] steps[i]) is StopRequested {
            let i = choose|i: int| 0 <= i < steps.len() && (#[trigger] steps[i]) is StopRequested;
            if i < front.len() {
                assert(front[i] is StopRequested);
            }
        }
    }
}

/// Whether `at` holds the positions, from the first to the last, of the store
/// paths that are the first with their hash, which is not in `seen`.
pub open spec fn first_positions(
    at: Seq<int>,
    seen: Set<Seq<char>>,
    paths: Seq<StorePathView>,
) -> bool {
    &&& forall|i: int, j: int| 0 <= i < j < at.len() ==> #[trigger] at[i] < #[trigger] at[j]
    &&& forall|k: int| #[trigger]
        at.contains(k) <==> 0 <= k < paths.len() && !seen.contains(paths[k].hash()) && forall|
            j: int,
        |
            0 <= j < k ==> (#[trigger] paths[j]).hash() != paths[k].hash()
}

/// Of the store paths of a closure, those that are to be handled are the first
/// with their hash, unless it was seen before, in the order of the closure.
pub proof fn law_first_of_each_hash_is_handled(seen: Set<Seq<char>>, paths: Seq<StorePathView>)
    ensures
        exists|at: Seq<int>| #[trigger]
            first_positions(at, seen, paths) && fresh_paths(seen, paths) == at.map_values(
                |k: int| paths[k],
            ),
    decreases paths.len(),
{
    if paths.len() == 0 {
        let at = Seq::<int>::empty();
        assert(first_positions(at, seen, paths));
        assert(fresh_paths(seen, paths) =~= at.map_values(|k: int| paths[k]));
    } else {
        let init = paths.drop_last();
        let last = paths.len() - 1;
        law_first_of_each_hash_is_handled(seen, init);
        law_each_hash_is_handled_once(seen, init);
        let before = choose|at: Seq<int>| #[trigger]
            first_positions(at, seen, init) && fresh_paths(seen, init) == at.map_values(
                |k: int| init[k],
            );
        let known = seen_after(seen, init).contains(paths[last].hash());
        let at = if known {
            before
        } else {
            before.push(last)
        };
        let earlier = fresh_paths(seen, init);
        assert(known <==> seen.contains(paths[last].hash()) || exists|j: int|
            0 <= j < last && (#[trigger] paths[j]).hash() == paths[last].hash()) by {
            if known && !seen.contains(paths[last].hash()) {
                let i = choose|i: int|
                    0 <= i < earlier.len() && #[trigger] earlier[i].hash() == paths[last].hash();
                assert(init.contains(earlier[i]));
                let j = choose|j: int| 0 <= j < init.len() && init[j] == earlier[i];
                assert(paths[j].hash() == paths[last].hash());
            }
            if exists|j: int|
                0 <= j < last && (#[trigger] paths[j]).hash() == paths[last].hash() {
                let j = choose|j: int|
                    0 <= j < last && (#[trigger] paths[j]).hash() == paths[last].hash();
                assert(init[j].hash() == paths[last].hash());
            }
            if seen.contains(paths[last].hash()) {
                assert(seen_after(seen, init).contains(paths[last].hash()));
            }
        }
        assert forall|i: int| 0 <= i < before.len() implies 0 <= #[trigger] before[i] < last by {
            assert(before.contains(before[i]));
        }
        assert forall|k: int| #[trigger]
            at.contains(k) <==> 0 <= k < paths.len() && !seen.contains(paths[k].hash()) && forall|
                j: int,
            |
                0 <= j < k ==> (#[trigger] paths[j]).hash() != paths[k].hash() by {
            if k != last {
                assert(at.contains(k) <==> before.contains(k)) by {
                    if before.contains(k) {
                        let i = choose|i: int| 0 <= i < before.len() && before[i] == k;
                        assert(at[i] == k);
                    }
                    if at.contains(k) {
                        let i = choose|i: int| 0 <= i < at.len() && at[i] == k;
                        assert(before[i] == k);
                    }
                }
                if 0 <= k < last {
                    assert(paths[k] == init[k]);
                    assert forall|j: int| 0 <= j < k implies paths[j] == init[j] by {}
                }
            } else {
                if !known {
                    assert(at[at.len() - 1] == last);
                } else if at.contains(last) {
                    let i = choose|i: int| 0 <= i < at.len() && at[i] == last;
                    assert(before[i] < last);
                }
            }
        }
        assert(first_positions(at, seen, paths));
        assert(fresh_paths(seen, paths) =~= at.map_values(|k: int| paths[k]));
    }
}

/// What is known of a report is what it holds.
pub proof fn law_report_is_what_it_holds(report: ActionReport)
    ensures
        report@.num_bytes_pushed == report.num_bytes_pushed,
        report@.num_paths_pushed == report.num_paths_pushed,
        report@.num_paths_skipped == report.num_paths_skipped,
        report@.path_closure_errors.len() == report.path_closure_errors@.len(),
        report@.path_handling_errors.len() == report.path_handling_errors@.len(),
        forall|i: int|
            0 <= i < report.path_closure_errors@.len() ==> #[trigger] report@.path_closure_errors[i]
                == (report.path_closure_errors@[i].0@, report.path_closure_errors@[i].1@),
        forall|i: int|
            0 <= i < report.path_handling_errors@.len()
                ==> #[trigger] report@.path_handling_errors[i] == (
                report.path_handling_errors@[i].0@,
                report.path_handling_errors@[i].1@,
            ),
{
}

/// What is said about a store path that could not be handled names the thing that
/// failed, and ends in the whole of the error with which it did.
pub proof fn law_handling_errors_are_told_in_full(error: String)
    ensures
        HandlePathError::CheckNarInfoExistence(error)@.text()
            == "couldn't check NARInfo existence on remote cache: "@ + error@,
        HandlePathError::CreateNarUploadId(error)@.text() == "couldn't create NAR upload ID: "@
            + error@,
        HandlePathError::GetPathInfos(error)@.text() == "couldn't get store path infos: "@ + error@,
        HandlePathError::UploadNar(error)@.text() == "couldn't upload NAR to cache: "@ + error@,
        HandlePathError::UploadNarInfo(error)@.text() == "couldn't upload NARInfo to cache: "@
            + error@,
        HandlePathError::WriteNar(error)@.text() == "couldn't get NAR from store: "@ + error@,
        HandlePathError::WriteNarWroteZeroBytes@.text() == "got empty NAR from store"@,
{
}

/// What is known of the outcome of handling a store path is the outcome itself, or
/// the error.
pub proof fn law_outcomes_are_kept(outcome: PathOutcome, error: HandlePathError)
    ensures
        outcome_view(Ok(outcome)) == Ok::<PathOutcome, HandlePathErrorView>(outcome),
        outcome_view(Err(error)) == Err::<PathOutcome, HandlePathErrorView>(error@),
{
}

} // verus!
