//! What a client that drains the daemon is told about its progress.

use vstd::prelude::*;

use crate::byte_size::HumanReadableByteSize;
use crate::event_loop::{ActionReport, ActionReportView, HandlePathError, PathOutcome};
use crate::store_path::{StorePath, StorePathView};
use crate::{byte_size, text};

verus! {

/// How a store path was handled.
#[derive(Clone, Copy, Debug, PartialEq, Eq, Structural)]
pub enum HandlePathOutcome {
    PushedNarAndNarInfo { num_bytes: u64 },
    PushedNarInfo { num_bytes: u64 },
    Skipped,
}

/// Puts together what the client is told.
pub struct RealDrainProgressReporter {
    reported_paths_left_to_handle: bool,
}

/// What is said about the given number of store paths that are left.
pub open spec fn paths_left_text(num_paths: nat) -> Seq<char> {
    if num_paths == 1 {
        "There is still "@ + text::decimal_text(num_paths) + " store path left to handle\n"@
    } else {
        "There are still "@ + text::decimal_text(num_paths) + " store paths left to handle\n"@
    }
}

/// What is said about a store path that was handled.
pub open spec fn outcome_text(path: StorePathView, outcome: HandlePathOutcome) -> Seq<char> {
    let verb = if outcome == HandlePathOutcome::Skipped {
        "Skipped "@
    } else {
        "Pushed "@
    };
    verb + path.text() + "\n"@
}

/// How many store paths a thing happened to.
pub open spec fn count_text(num_paths: nat, what: Seq<char>) -> Seq<char> {
    let subject = if num_paths == 1 {
        " store path was "@
    } else {
        " store paths were "@
    };
    text::decimal_text(num_paths) + subject + what
}

/// The lines about store paths that could not be handled.
pub open spec fn error_lines(errors: Seq<(StorePathView, Seq<char>)>) -> Seq<char>
    decreases errors.len(),
{
    if errors.len() == 0 {
        seq![]
    } else {
        error_lines(errors.drop_last()) + errors.last().0.text() + ": "@ + errors.last().1 + "\n"@
    }
}

/// The store paths that could not be handled, with the texts of the errors:
/// those whose closure could not be computed, and then those that could not be
/// pushed.
pub open spec fn all_errors(report: ActionReportView) -> Seq<(StorePathView, Seq<char>)> {
    report.path_closure_errors + report.path_handling_errors.map_values(
        |error: (StorePathView, crate::event_loop::HandlePathErrorView)| (error.0, error.1.text()),
    )
}

/// What is said in the end.
pub open spec fn final_report_text(
    reported_paths_left_to_handle: bool,
    report: ActionReportView,
) -> Seq<char> {
    let errors = all_errors(report);
    let separator = if reported_paths_left_to_handle {
        "\n"@
    } else {
        seq![]
    };
    let skipped = count_text(report.num_paths_skipped, "skipped\n"@);
    let pushed = count_text(report.num_paths_pushed, "pushed, totalling "@)
        + byte_size::byte_size_text(report.num_bytes_pushed) + "\n"@;
    let failed = if errors.len() == 0 {
        seq![]
    } else {
        let subject = if errors.len() == 1 {
            " store path could not be handled\n"@
        } else {
            " store paths could not be handled\n"@
        };
        text::decimal_text(errors.len()) + subject + error_lines(errors)
    };
    separator + skipped + pushed + failed
}

/// Returns how many store paths a thing happened to.
fn count(num_paths: u32, what: &str) -> (text: String)
    ensures
        text@ == count_text(num_paths as nat, what@),
{
    let subject: &str = if num_paths == 1 {
        " store path was "
    } else {
        " store paths were "
    };
    text::concat3(text::decimal(num_paths as u128).as_str(), subject, what)
}

/// Appends the line about a store path that could not be handled.
fn append_error_line(msg: &mut String, path: &StorePath, error: &str)
    ensures
        final(msg)@ == old(msg)@ + path@.text() + ": "@ + error@ + "\n"@,
{
    msg.append(path.to_text().as_str());
    msg.append(": ");
    msg.append(error);
    msg.append("\n");
}

impl RealDrainProgressReporter {
    /// Whether the client was told about store paths that are left.
    pub closed spec fn reported_paths_left(self) -> bool {
        self.reported_paths_left_to_handle
    }

    /// The reporter before anything was said.
    pub fn new() -> (reporter: Self)
        ensures
            !reporter.reported_paths_left(),
    {
        RealDrainProgressReporter { reported_paths_left_to_handle: false }
    }

    /// What to tell the client about the number of store paths that are left,
    /// if there are any.
    pub fn report_paths_left_to_handle(&mut self, num_paths: u32) -> (msg: Option<String>)
        ensures
            match msg {
                Some(msg) => num_paths > 0 && msg@ == paths_left_text(num_paths as nat),
                None => num_paths == 0,
            },
            final(self).reported_paths_left() == (old(self).reported_paths_left() || num_paths > 0),
    {
        if num_paths == 0 {
            return None;
        }
        self.reported_paths_left_to_handle = true;
        let number: String = text::decimal(num_paths as u128);
        if num_paths == 1 {
            Some(text::concat3("There is still ", number.as_str(), " store path left to handle\n"))
        } else {
            Some(
                text::concat3("There are still ", number.as_str(), " store paths left to handle\n"),
            )
        }
    }

    /// What to tell the client about a store path that was handled.
    pub fn report_path_handling_outcome(&self, path: &StorePath, outcome: HandlePathOutcome) -> (msg:
        String)
        ensures
            msg@ == outcome_text(path@, outcome),
    {
        let verb: &str = match outcome {
            HandlePathOutcome::PushedNarAndNarInfo { .. } => "Pushed ",
            HandlePathOutcome::PushedNarInfo { .. } => "Pushed ",
            HandlePathOutcome::Skipped => "Skipped ",
        };
        text::concat3(verb, path.to_text().as_str(), "\n")
    }

    /// What to tell the client about a store path that could not be handled.
    pub fn report_path_handling_error(&self, path: &StorePath, _error: &HandlePathError) -> (msg:
        String)
        ensures
            msg@ == "Failed handling "@ + path@.text() + "\n"@,
    {
        text::concat3("Failed handling ", path.to_text().as_str(), "\n")
    }

    /// What to tell the client about a store path that was handled: pushed with
    /// the given number of bytes, skipped, or failed.
    pub fn report_path_handled(
        &self,
        path: &StorePath,
        outcome: &Result<PathOutcome, HandlePathError>,
    ) -> (msg: String)
        ensures
            msg@ == match outcome {
                Ok(PathOutcome::Pushed { .. }) => "Pushed "@ + path@.text() + "\n"@,
                Ok(PathOutcome::InCache) => "Skipped "@ + path@.text() + "\n"@,
                Ok(PathOutcome::InUpstreamCache) => "Skipped "@ + path@.text() + "\n"@,
                Err(_) => "Failed handling "@ + path@.text() + "\n"@,
            },
    {
        match outcome {
            Ok(PathOutcome::Pushed { num_bytes }) => self.report_path_handling_outcome(
                path,
                HandlePathOutcome::PushedNarAndNarInfo { num_bytes: *num_bytes },
            ),
            Ok(PathOutcome::InCache) => self.report_path_handling_outcome(
                path,
                HandlePathOutcome::Skipped,
            ),
            Ok(PathOutcome::InUpstreamCache) => self.report_path_handling_outcome(
                path,
                HandlePathOutcome::Skipped,
            ),
            Err(error) => self.report_path_handling_error(path, error),
        }
    }

    /// What to tell the client in the end.
    pub fn report_final_report(self, report: &ActionReport) -> (msg: String)
        ensures
            msg@ == final_report_text(self.reported_paths_left(), report@),
    {
        let mut msg: String = String::new();
        if self.reported_paths_left_to_handle {
            msg.append("\n");
        }
        msg.append(count(report.num_paths_skipped, "skipped\n").as_str());
        msg.append(count(report.num_paths_pushed, "pushed, totalling ").as_str());
        msg.append(HumanReadableByteSize(report.num_bytes_pushed).to_string().as_str());
        msg.append("\n");

        let num_errors: u128 = report.path_closure_errors.len() as u128
            + report.path_handling_errors.len() as u128;
        let ghost errors = all_errors(report@);
        let ghost counts = msg@;
        if num_errors > 0 {
            msg.append(text::decimal(num_errors).as_str());
            msg.append(
                if num_errors == 1 {
                    " store path could not be handled\n"
                } else {
                    " store paths could not be handled\n"
                },
            );
            let ghost header = msg@;

            let num_closure_errors: usize = report.path_closure_errors.len();
            assert(msg@ =~= header + error_lines(errors.take(0)));
            for i in 0..num_closure_errors
                invariant
                    num_closure_errors == report.path_closure_errors@.len(),
                    errors == all_errors(report@),
                    msg@ == header + error_lines(errors.take(i as int)),
            {
                let (path, error) = &report.path_closure_errors[i];
                append_error_line(&mut msg, path, error.as_str());
                assert(errors.take(i + 1).drop_last() =~= errors.take(i as int));
                assert(msg@ =~= header + error_lines(errors.take(i + 1)));
            }

            let num_handling_errors: usize = report.path_handling_errors.len();
            for i in 0..num_handling_errors
                invariant
                    num_closure_errors == report.path_closure_errors@.len(),
                    num_handling_errors == report.path_handling_errors@.len(),
                    errors == all_errors(report@),
                    msg@ == header + error_lines(errors.take(num_closure_errors + i)),
            {
                let (path, error) = &report.path_handling_errors[i];
                append_error_line(&mut msg, path, error.to_text().as_str());
                assert(errors.take(num_closure_errors + i + 1).drop_last() =~= errors.take(
                    num_closure_errors + i,
                ));
                assert(msg@ =~= header + error_lines(errors.take(num_closure_errors + i + 1)));
            }
            assert(errors.take(errors.len() as int) =~= errors);
        }
        assert(msg@ =~= final_report_text(self.reported_paths_left(), report@));
        msg
    }
}

/// The lines about store paths that could not be handled are one for each, in
/// their order, with the store path and the whole error.
pub proof fn law_each_error_has_its_line(errors: Seq<(StorePathView, Seq<char>)>)
    ensures
        error_lines(errors) == errors.map_values(
            |error: (StorePathView, Seq<char>)| error.0.text() + ": "@ + error.1 + "\n"@,
        ).flatten(),
    decreases errors.len(),
{
    let line = |error: (StorePathView, Seq<char>)| error.0.text() + ": "@ + error.1 + "\n"@;
    if errors.len() == 0 {
        assert(errors.map_values(line) =~= seq![]);
    } else {
        let init = errors.drop_last();
        law_each_error_has_its_line(init);
        init.map_values(line).lemma_flatten_push(line(errors.last()));
        assert(errors.map_values(line) =~= init.map_values(line).push(line(errors.last())));
        assert(error_lines(errors) =~= error_lines(init) + line(errors.last()));
    }
}

/// What is said in the end is the number of store paths that were skipped, then
/// the number of those that were pushed, with how many bytes these were in all,
/// and then, if there are any, the number of those that could not be handled, with
/// a line for each: first those whose closure could not be computed, and then
/// those that could not be pushed. An empty line comes before it if store paths
/// were announced.
pub proof fn law_final_report_tells_everything(announced: bool, report: ActionReportView)
    ensures
        ({
            let blank = if announced {
                seq!['\n']
            } else {
                seq![]
            };
            let skipped = text::decimal_text(report.num_paths_skipped) + if report.num_paths_skipped
                == 1 {
                " store path was skipped\n"@
            } else {
                " store paths were skipped\n"@
            };
            let pushed = text::decimal_text(report.num_paths_pushed) + if report.num_paths_pushed
                == 1 {
                " store path was pushed, totalling "@
            } else {
                " store paths were pushed, totalling "@
            } + byte_size::byte_size_text(report.num_bytes_pushed) + "\n"@;
            let closures = report.path_closure_errors.map_values(
                |error: (StorePathView, Seq<char>)| error.0.text() + ": "@ + error.1 + "\n"@,
            );
            let paths = report.path_handling_errors.map_values(
                |error: (StorePathView, crate::event_loop::HandlePathErrorView)|
                    error.0.text() + ": "@ + error.1.text() + "\n"@,
            );
            let num_failed = report.path_closure_errors.len() + report.path_handling_errors.len();
            let failed = if num_failed == 0 {
                seq![]
            } else {
                text::decimal_text(num_failed) + if num_failed == 1 {
                    " store path could not be handled\n"@
                } else {
                    " store paths could not be handled\n"@
                } + (closures + paths).flatten()
            };
            final_report_text(announced, report) == blank + skipped + pushed + failed
        }),
{
    reveal_strlit("\n");
    reveal_strlit(" store path was ");
    reveal_strlit(" store paths were ");
    reveal_strlit("skipped\n");
    reveal_strlit("pushed, totalling ");
    reveal_strlit(" store path was skipped\n");
    reveal_strlit(" store paths were skipped\n");
    reveal_strlit(" store path was pushed, totalling ");
    reveal_strlit(" store paths were pushed, totalling ");
    assert("\n"@ =~= seq!['\n']);
    assert(" store path was "@ + "skipped\n"@ =~= " store path was skipped\n"@);
    assert(" store paths were "@ + "skipped\n"@ =~= " store paths were skipped\n"@);
    assert(" store path was "@ + "pushed, totalling "@ =~= " store path was pushed, totalling "@);
    assert(" store paths were "@ + "pushed, totalling "@
        =~= " store paths were pushed, totalling "@);
    let errors = all_errors(report);
    let line = |error: (StorePathView, Seq<char>)| error.0.text() + ": "@ + error.1 + "\n"@;
    let closures = report.path_closure_errors.map_values(line);
    let paths = report.path_handling_errors.map_values(
        |error: (StorePathView, crate::event_loop::HandlePathErrorView)|
            error.0.text() + ": "@ + error.1.text() + "\n"@,
    );
    law_each_error_has_its_line(errors);
    assert(errors.map_values(line) =~= closures + paths);
    let skipped = count_text(report.num_paths_skipped, "skipped\n"@);
    assert(skipped =~= text::decimal_text(report.num_paths_skipped) + if report.num_paths_skipped
        == 1 {
        " store path was skipped\n"@
    } else {
        " store paths were skipped\n"@
    });
    let pushed = count_text(report.num_paths_pushed, "pushed, totalling "@);
    assert(pushed =~= text::decimal_text(report.num_paths_pushed) + if report.num_paths_pushed
        == 1 {
        " store path was pushed, totalling "@
    } else {
        " store paths were pushed, totalling "@
    });
}

/// What is said about the store paths that are left names how many they are, and
/// what is said about one that was handled names it, and whether it was pushed or
/// skipped.
pub proof fn law_progress_names_the_number_and_the_path(
    num_paths: nat,
    path: StorePathView,
    num_bytes: u64,
)
    ensures
        num_paths != 1 ==> paths_left_text(num_paths) == "There are still "@ + text::decimal_text(
            num_paths,
        ) + " store paths left to handle\n"@,
        paths_left_text(1) == "There is still "@ + text::decimal_text(1)
            + " store path left to handle\n"@,
        outcome_text(path, HandlePathOutcome::PushedNarAndNarInfo { num_bytes }) == "Pushed "@
            + path.text() + "\n"@,
        outcome_text(path, HandlePathOutcome::PushedNarInfo { num_bytes }) == "Pushed "@
            + path.text() + "\n"@,
        outcome_text(path, HandlePathOutcome::Skipped) == "Skipped "@ + path.text() + "\n"@,
{
}

} // verus!
