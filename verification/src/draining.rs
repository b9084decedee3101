//! The end of the daemon: the store paths that are left are handled, and the
//! client that asked for it is told about each of them.
//!
//! What the client is told comes in a fixed order: how many store paths are
//! left, then one line for each of them, and then the report.

use vstd::prelude::*;

use crate::event_loop::{
    EventLoop,
    EventLoopView,
    HandlePathError,
    HandlePathErrorView,
    LoopStep,
    PathOutcome,
};
use crate::real_drain_progress_reporter::RealDrainProgressReporter;
use crate::store_path::{StorePath, StorePathView};
use crate::{event_loop, real_drain_progress_reporter};

verus! {

/// A daemon that handles the store paths that are left.
pub struct Draining {
    event_loop: EventLoop,
    reporter: RealDrainProgressReporter,
}

/// The number of store paths that are left.
pub open spec fn num_left(state: EventLoopView) -> nat {
    state.handling + state.pending.len()
}

/// What is said about a store path that was handled.
pub open spec fn handled_text(
    path: StorePathView,
    outcome: Result<PathOutcome, HandlePathErrorView>,
) -> Seq<char> {
    match outcome {
        Ok(PathOutcome::Pushed { .. }) => "Pushed "@ + path.text() + "\n"@,
        Ok(PathOutcome::InCache) => "Skipped "@ + path.text() + "\n"@,
        Ok(PathOutcome::InUpstreamCache) => "Skipped "@ + path.text() + "\n"@,
        Err(_) => "Failed handling "@ + path.text() + "\n"@,
    }
}

impl Draining {
    /// The state of the event loop.
    pub closed spec fn state(self) -> EventLoopView {
        self.event_loop@
    }

    /// Whether the client was told that store paths are left.
    pub closed spec fn announced(self) -> bool {
        self.reporter.reported_paths_left()
    }

    /// Stops an event loop that is ready to, and returns what the client is told
    /// about the number of store paths that are left, if there are any.
    pub fn new(event_loop: EventLoop) -> (res: (Self, Option<String>))
        requires
            event_loop@.wf(),
            event_loop@.stop_requested && event_loop@.closures == 0,
        ensures
            res.0.state() == event_loop@,
            res.0.announced() == (num_left(event_loop@) as u32 > 0),
            match res.1 {
                Some(msg) => num_left(event_loop@) as u32 > 0 && msg@
                    == real_drain_progress_reporter::paths_left_text(
                    num_left(event_loop@) as u32 as nat,
                ),
                None => num_left(event_loop@) as u32 == 0,
            },
    {
        let mut reporter = RealDrainProgressReporter::new();
        let msg = reporter.report_paths_left_to_handle(event_loop.num_paths_left_to_handle());
        (Draining { event_loop, reporter }, msg)
    }

    /// Whether the report has room for the outcome of handling a store path.
    pub fn has_room_for(&self, outcome: &Result<PathOutcome, HandlePathError>) -> (has_room: bool)
        ensures
            has_room == match outcome {
                Ok(PathOutcome::Pushed { num_bytes }) => {
                    &&& self.state().report.num_bytes_pushed + *num_bytes <= u64::MAX
                    &&& self.state().report.num_paths_pushed < u32::MAX
                },
                Ok(PathOutcome::InCache) => self.state().report.num_paths_skipped < u32::MAX,
                Ok(PathOutcome::InUpstreamCache) => true,
                Err(_) => true,
            },
    {
        self.event_loop.has_room_for(outcome)
    }

    /// Takes the outcome of handling a store path. Returns what the client is
    /// told about it, and the store path to start handling in its place.
    pub fn on_path_handled(
        &mut self,
        path: StorePath,
        outcome: Result<PathOutcome, HandlePathError>,
    ) -> (res: (String, Option<StorePath>))
        requires
            old(self).state().wf(),
            old(self).state().handling > 0,
            outcome matches Ok(PathOutcome::Pushed { num_bytes }) ==> {
                &&& old(self).state().report.num_bytes_pushed + num_bytes <= u64::MAX
                &&& old(self).state().report.num_paths_pushed < u32::MAX
            },
            outcome matches Ok(PathOutcome::InCache) ==> old(self).state().report.num_paths_skipped
                < u32::MAX,
        ensures
            final(self).state().wf(),
            final(self).state() == old(self).state().path_handled(
                path@,
                event_loop::outcome_view(outcome),
            ),
            final(self).announced() == old(self).announced(),
            res.0@ == handled_text(path@, event_loop::outcome_view(outcome)),
            match res.1 {
                Some(path) => old(self).state().pending.len() > 0 && path@
                    == old(self).state().pending[0],
                None => old(self).state().pending.len() == 0,
            },
    {
        let msg: String = self.reporter.report_path_handled(&path, &outcome);
        let started: Option<StorePath> = self.event_loop.on_path_handled(path, outcome);
        (msg, started)
    }

    /// Whether every store path was handled.
    pub fn is_drained(&self) -> (drained: bool)
        requires
            self.state().wf(),
        ensures
            drained == (self.state().handling == 0),
            drained ==> self.state().pending.len() == 0,
    {
        self.event_loop.is_drained()
    }

    /// Returns what the client is told in the end.
    pub fn finish(self) -> (msg: String)
        requires
            self.state().handling == 0,
        ensures
            msg@ == real_drain_progress_reporter::final_report_text(
                self.announced(),
                self.state().report,
            ),
    {
        self.reporter.report_final_report(&self.event_loop.into_report())
    }
}

/// The outcomes of handling store paths, as they happen to the event loop.
pub open spec fn outcome_steps(
    outcomes: Seq<(StorePathView, Result<PathOutcome, HandlePathErrorView>)>,
) -> Seq<LoopStep> {
    outcomes.map_values(
        |outcome: (StorePathView, Result<PathOutcome, HandlePathErrorView>)|
            LoopStep::PathHandled(outcome.0, outcome.1),
    )
}

/// Everything that a client is told by a daemon to which the given steps
/// happened before it was ready to stop, and then the given outcomes.
pub open spec fn told(
    steps: Seq<LoopStep>,
    outcomes: Seq<(StorePathView, Result<PathOutcome, HandlePathErrorView>)>,
) -> Seq<Seq<char>> {
    let left = num_left(event_loop::reached(steps));
    let announcement = if left > 0 {
        seq![real_drain_progress_reporter::paths_left_text(left)]
    } else {
        seq![]
    };
    let lines = outcomes.map_values(
        |outcome: (StorePathView, Result<PathOutcome, HandlePathErrorView>)|
            handled_text(outcome.0, outcome.1),
    );
    let report = event_loop::reached(steps + outcome_steps(outcomes)).report;
    announcement + lines + seq![real_drain_progress_reporter::final_report_text(left > 0, report)]
}

proof fn lemma_num_left(
    steps: Seq<LoopStep>,
    outcomes: Seq<(StorePathView, Result<PathOutcome, HandlePathErrorView>)>,
)
    requires
        event_loop::can_happen(steps + outcome_steps(outcomes)),
    ensures
        event_loop::can_happen(steps),
        num_left(event_loop::reached(steps + outcome_steps(outcomes))) + outcomes.len() == num_left(
            event_loop::reached(steps),
        ),
        event_loop::all_handled(steps + outcome_steps(outcomes)) == event_loop::all_handled(steps)
            + outcomes.map_values(
            |outcome: (StorePathView, Result<PathOutcome, HandlePathErrorView>)| outcome.0,
        ),
    decreases outcomes.len(),
{
    let paths = |outcome: (StorePathView, Result<PathOutcome, HandlePathErrorView>)| outcome.0;
    let all = steps + outcome_steps(outcomes);
    if outcomes.len() == 0 {
        assert(all =~= steps);
        assert(event_loop::all_handled(steps) + outcomes.map_values(paths)
            =~= event_loop::all_handled(steps));
    } else {
        let front = outcomes.drop_last();
        assert(all.drop_last() =~= steps + outcome_steps(front));
        assert(all.last() == LoopStep::PathHandled(outcomes.last().0, outcomes.last().1));
        lemma_num_left(steps, front);
        assert(event_loop::all_handled(all) =~= event_loop::all_handled(steps)
            + outcomes.map_values(paths));
    }
}

/// A client that is told how many store paths are left is then told the outcome
/// of exactly as many, each of another store path, before every store path was
/// handled and the report comes, once and last.
pub proof fn law_announced_paths_are_reported(
    steps: Seq<LoopStep>,
    outcomes: Seq<(StorePathView, Result<PathOutcome, HandlePathErrorView>)>,
)
    requires
        event_loop::can_happen(steps + outcome_steps(outcomes)),
        event_loop::faithful(steps + outcome_steps(outcomes)),
        num_left(event_loop::reached(steps)) <= u32::MAX,
    ensures
        ({
            let left = num_left(event_loop::reached(steps));
            let end = event_loop::reached(steps + outcome_steps(outcomes));
            let num_before = if left > 0 {
                1nat
            } else {
                0
            };
            &&& left as u32 == left
            &&& outcomes.len() <= left
            &&& end.handling == 0 <==> outcomes.len() == left
            &&& told(steps, outcomes).len() == num_before + outcomes.len() + 1
            &&& forall|i: int|
                0 <= i < outcomes.len() ==> told(steps, outcomes)[num_before + i] == handled_text(
                    (#[trigger] outcomes[i]).0,
                    outcomes[i].1,
                )
            &&& forall|i: int, j: int|
                0 <= i < j < outcomes.len() ==> (#[trigger] outcomes[i]).0.hash() != (
                #[trigger] outcomes[j]).0.hash()
            &&& told(steps, outcomes).last() == real_drain_progress_reporter::final_report_text(
                left > 0,
                end.report,
            )
        }),
{
    let all = steps + outcome_steps(outcomes);
    let paths = outcomes.map_values(
        |outcome: (StorePathView, Result<PathOutcome, HandlePathErrorView>)| outcome.0,
    );
    lemma_num_left(steps, outcomes);
    event_loop::law_life_of_the_daemon(all);
    event_loop::law_each_path_has_one_outcome(all);
    let handled = event_loop::all_handled(all);
    let num_handled = event_loop::all_handled(steps).len() as int;
    assert forall|i: int, j: int| 0 <= i < j < outcomes.len() implies (
    #[trigger] outcomes[i]).0.hash() != (#[trigger] outcomes[j]).0.hash() by {
        assert(handled[num_handled + i] == outcomes[i].0);
        assert(handled[num_handled + j] == outcomes[j].0);
        assert(handled[num_handled + i].hash() != handled[num_handled + j].hash());
    }
}

/// A client is told of each store path what became of it: that it was pushed, that
/// it was skipped, whichever cache has it, or that handling it failed. Of those
/// that are left it is told how many are being handled or wait.
pub proof fn law_outcome_is_told(
    path: StorePathView,
    outcome: Result<PathOutcome, HandlePathErrorView>,
    state: EventLoopView,
)
    ensures
        handled_text(path, outcome) == match outcome {
            Ok(PathOutcome::Pushed { .. }) => "Pushed "@,
            Ok(_) => "Skipped "@,
            Err(_) => "Failed handling "@,
        } + path.text() + "\n"@,
        num_left(state) == state.handling + state.pending.len(),
{
}

} // verus!
