//! The ingesting side of the plugin: its configuration, the cycle it runs
//! over the configured folder, what it reports of a cycle, and the queries
//! it answers.

use crate::commit::{git_plugin_name, CompressedEvent, SourceTag, TimeRange};
use crate::cycle::{fatal, started, Cycle, CycleState, CycleView};
use crate::query::{
    compress_stream, query_outcome, range_filter, summaries_result_view, RangeFilter, StoreRead,
};
use crate::text::{join2, views};
use crate::time::Delay;
use vstd::prelude::*;
use vstd::string::*;

verus! {

/// Minutes from the end of one cycle to the start of the next.
pub const REFRESH_MINUTES: i64 = 15;

/// The plugin's configuration.
#[derive(Clone, Debug, PartialEq, Eq)]
pub struct ConfigData {
    /// The folder that holds one directory per repository.
    pub repo_folder: String,
}

impl View for ConfigData {
    type V = Seq<char>;

    open spec fn view(&self) -> Seq<char> {
        self.repo_folder@
    }
}

/// The git plugin as the host runs it.
#[derive(Clone, Debug, PartialEq, Eq)]
pub struct Plugin {
    config: ConfigData,
}

impl View for Plugin {
    type V = Seq<char>;

    closed spec fn view(&self) -> Seq<char> {
        self.config@
    }
}

/// What one turn of the scheduling loop gives: the failures to report, and
/// the time to wait before the next turn.
#[derive(Clone, Debug, PartialEq, Eq)]
pub struct LoopTurn {
    pub reports: Vec<String>,
    pub delay: Option<Delay>,
}

pub open spec fn refresh_failure_text(cause: Seq<char>) -> Seq<char> {
    "Unable to refresh recent commits: "@ + cause
}

/// What is reported of a cycle: the failure of each repository, oldest
/// first, and after them the failure of the root folder if the cycle ended
/// on one; each under the loop's heading.
pub open spec fn loop_reports(cycle: CycleView) -> Seq<Seq<char>> {
    let failures = match fatal(cycle.state) {
        Some(error) => cycle.errors.push(error),
        None => cycle.errors,
    };
    failures.map_values(|cause: Seq<char>| refresh_failure_text(cause))
}

impl Plugin {
    /// The plugin over the configured folder.
    pub fn new(config: ConfigData) -> (plugin: Plugin)
        ensures
            plugin@ == config@,
    {
        Plugin { config }
    }

    /// The folder that the plugin scans.
    pub fn repo_folder(&self) -> (folder: &str)
        ensures
            folder@ == self@,
    {
        self.config.repo_folder.as_str()
    }

    /// The tag under which the plugin's events are stored.
    pub fn get_type() -> (tag: SourceTag)
        ensures
            tag@ == git_plugin_name(),
    {
        SourceTag::git()
    }

    /// A new cycle over the configured folder.
    pub fn update_commits(&self) -> (cycle: Cycle)
        ensures
            cycle@ == started(self@),
    {
        Cycle::begin(self.config.repo_folder.as_str())
    }

    /// One turn of the scheduling loop, taken when `cycle` has run: every
    /// failure of the cycle is to be reported, and the next turn is due a
    /// quarter of an hour later, whatever the cycle came to.
    pub fn request_loop(&self, cycle: &Cycle) -> (turn: LoopTurn)
        ensures
            views(turn.reports@) == loop_reports(cycle@),
            turn.delay == Some(Delay { seconds: 900 }),
    {
        let ghost heading = |cause: Seq<char>| refresh_failure_text(cause);
        let mut reports: Vec<String> = Vec::new();
        let mut i: usize = 0;
        while i < cycle.errors.len()
            invariant
                i <= cycle.errors.len(),
                reports@.len() == i,
                forall|j: int|
                    0 <= j < i ==> reports@[j]@ == refresh_failure_text(cycle.errors@[j]@),
            decreases cycle.errors.len() - i,
        {
            reports.push(join2("Unable to refresh recent commits: ", cycle.errors[i].as_str()));
            i += 1;
        }
        match &cycle.state {
            CycleState::Aborted { error } => {
                reports.push(join2("Unable to refresh recent commits: ", error.as_str()));
                proof {
                    assert(views(reports@) == views(cycle.errors@).push(error@).map_values(
                        heading,
                    ));
                }
            },
            _ => {
                proof {
                    assert(views(reports@) == views(cycle.errors@).map_values(heading));
                }
            },
        }
        LoopTurn { reports, delay: Delay::of_minutes(REFRESH_MINUTES) }
    }

    /// The question to put to the store for the plugin's events in
    /// `query_range`.
    pub fn events_filter(&self, query_range: &TimeRange) -> (filter: RangeFilter)
        ensures
            filter@ == range_filter(*query_range),
    {
        RangeFilter { plugin: Plugin::get_type(), range: *query_range }
    }

    /// The answer to a query from what the store gave: the summaries of the
    /// events in the store's order, or the store's failure and then nothing
    /// else.
    pub fn get_compressed_events(&self, read: &StoreRead) -> (r: Result<
        Vec<CompressedEvent>,
        String,
    >)
        ensures
            summaries_result_view(r) == query_outcome(read@),
    {
        match read {
            StoreRead::Refused(cause) => Err(cause.clone()),
            StoreRead::Streamed(items) => compress_stream(items),
        }
    }
}

} // verus!
