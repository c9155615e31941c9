//! Deduplication before persistence: of the commits read from one
//! repository, exactly those whose id the store does not hold yet are turned
//! into events to insert.
//!
//! The store is asked once, for the events of the git plugin whose id is one
//! of the candidates' ids, and is left alone when nothing is new. Asking and
//! inserting are the caller's part.

use crate::commit::{
    event_of, git_plugin_name, Commit, CommitEvent, CommitEventView, CommitView, SourceTag,
};
use crate::text::{contains_text, join2, views};
use vstd::prelude::*;
use vstd::string::*;

verus! {

/// The question put to the store: the events of one plugin whose id is one of
/// `ids`.
#[derive(Clone, Debug, PartialEq, Eq)]
pub struct IdFilter {
    pub plugin: SourceTag,
    pub ids: Vec<String>,
}

/// What a [`IdFilter`] holds, with its texts as sequences of characters.
pub struct IdFilterView {
    pub plugin: Seq<char>,
    pub ids: Seq<Seq<char>>,
}

impl View for IdFilter {
    type V = IdFilterView;

    open spec fn view(&self) -> IdFilterView {
        IdFilterView { plugin: self.plugin@, ids: views(self.ids@) }
    }
}

/// What the store answered.
#[derive(Clone, Debug, PartialEq, Eq)]
pub enum QueryOutcome {
    /// The store refused the question.
    FindFailed(String),
    /// The answer broke off before its end.
    CollectFailed(String),
    /// The ids of the events that the filter accepts.
    Found(Vec<String>),
}

/// What a [`QueryOutcome`] holds, with its texts as sequences of characters.
pub enum QueryOutcomeView {
    FindFailed(Seq<char>),
    CollectFailed(Seq<char>),
    Found(Seq<Seq<char>>),
}

impl View for QueryOutcome {
    type V = QueryOutcomeView;

    open spec fn view(&self) -> QueryOutcomeView {
        match self {
            QueryOutcome::FindFailed(cause) => QueryOutcomeView::FindFailed(cause@),
            QueryOutcome::CollectFailed(cause) => QueryOutcomeView::CollectFailed(cause@),
            QueryOutcome::Found(ids) => QueryOutcomeView::Found(views(ids@)),
        }
    }
}

pub open spec fn find_failure_text(cause: Seq<char>) -> Seq<char> {
    "Error loading commit ids from database: "@ + cause
}

pub open spec fn collect_failure_text(cause: Seq<char>) -> Seq<char> {
    "Unable to collect all already existing commits: "@ + cause
}

pub open spec fn insert_failure_text(cause: Seq<char>) -> Seq<char> {
    "Unable to insert into Database: "@ + cause
}

/// Whether the filter accepts an event: the plugin is the filter's and the id
/// is one of the filter's.
pub open spec fn id_filter_accepts(filter: IdFilterView, event: CommitEventView) -> bool {
    event.plugin == filter.plugin && filter.ids.contains(event.id)
}

/// The ids of the commits, in order.
pub open spec fn candidate_ids(commits: Seq<CommitView>) -> Seq<Seq<char>> {
    commits.map_values(|commit: CommitView| commit.id)
}

/// The question that is put to the store for `commits`.
pub open spec fn existing_filter(commits: Seq<CommitView>) -> IdFilterView {
    IdFilterView { plugin: git_plugin_name(), ids: candidate_ids(commits) }
}

/// The commits whose id is not among `present`, in their order.
pub open spec fn missing(commits: Seq<CommitView>, present: Seq<Seq<char>>) -> Seq<CommitView> {
    commits.filter(|commit: CommitView| !present.contains(commit.id))
}

/// The events to insert: one for each commit whose id is not among `present`.
pub open spec fn new_events(commits: Seq<CommitView>, present: Seq<Seq<char>>) -> Seq<
    CommitEventView,
> {
    missing(commits, present).map_values(|commit: CommitView| event_of(commit))
}

/// What is decided on the store's answer: a message if the store
/// failed, else the events to insert, of which there may be none.
pub open spec fn answer_outcome(commits: Seq<CommitView>, outcome: QueryOutcomeView) -> Result<
    Seq<CommitEventView>,
    Seq<char>,
> {
    match outcome {
        QueryOutcomeView::FindFailed(cause) => Err(find_failure_text(cause)),
        QueryOutcomeView::CollectFailed(cause) => Err(collect_failure_text(cause)),
        QueryOutcomeView::Found(present) => Ok(new_events(commits, present)),
    }
}

/// The view of a result that holds events to insert, if any.
pub open spec fn decision_view(r: Result<Option<Vec<CommitEvent>>, String>) -> Result<
    Seq<CommitEventView>,
    Seq<char>,
> {
    match r {
        Ok(Some(events)) => Ok(views(events@)),
        Ok(None) => Ok(Seq::empty()),
        Err(message) => Err(message@),
    }
}

/// A commit is missing exactly if it is one of the commits and its id is not
/// present; so an id that is present is never inserted again, and a commit
/// whose id is absent is never left out.
pub proof fn lemma_missing_membership(
    commits: Seq<CommitView>,
    present: Seq<Seq<char>>,
    commit: CommitView,
)
    ensures
        missing(commits, present).contains(commit) <==> (commits.contains(commit)
            && !present.contains(commit.id)),
{
    let absent = |c: CommitView| !present.contains(c.id);
    if missing(commits, present).contains(commit) {
        commits.lemma_filter_contains_rev(absent, commit);
    }
    if commits.contains(commit) && !present.contains(commit.id) {
        let i = choose|i: int| 0 <= i < commits.len() && commits[i] == commit;
        commits.lemma_filter_contains(absent, i);
    }
}

/// Where every candidate id is present, nothing is missing.
pub proof fn lemma_nothing_missing(commits: Seq<CommitView>, present: Seq<Seq<char>>)
    requires
        forall|i: int| 0 <= i < commits.len() ==> present.contains(#[trigger] commits[i].id),
    ensures
        missing(commits, present).len() == 0,
        new_events(commits, present).len() == 0,
{
    let absent = |c: CommitView| !present.contains(c.id);
    assert(commits.all(|c: CommitView| !absent(c))) by {
        assert forall|i: int| 0 <= i < commits.len() implies !absent(#[trigger] commits[i]) by {
            assert(present.contains(commits[i].id));
        }
    }
    commits.lemma_all_neg_filter_empty(absent);
}

impl IdFilter {
    /// Whether the filter accepts `event`.
    pub fn accepts(&self, event: &CommitEvent) -> (b: bool)
        ensures
            b == id_filter_accepts(self@, event@),
    {
        event.plugin.same_as(&self.plugin) && contains_text(&self.ids, &event.id)
    }
}

/// The question to put to the store before `commits` are inserted.
pub fn existing_commits_filter(commits: &Vec<Commit>) -> (filter: IdFilter)
    ensures
        filter@ == existing_filter(views(commits@)),
{
    let mut ids: Vec<String> = Vec::new();
    let mut i: usize = 0;
    while i < commits.len()
        invariant
            i <= commits.len(),
            ids@.len() == i,
            forall|j: int| 0 <= j < i ==> ids@[j]@ == commits@[j].id@,
        decreases commits.len() - i,
    {
        ids.push(commits[i].id.clone());
        i += 1;
    }
    proof {
        assert(views(ids@) == candidate_ids(views(commits@)));
    }
    IdFilter { plugin: SourceTag::git(), ids }
}

/// The events to insert for `commits` when the store already holds events
/// with the ids `already_inserted`: one for each commit whose id is not among
/// them, in the order of the commits.
pub fn select_new_events(commits: &Vec<Commit>, already_inserted: &Vec<String>) -> (insert: Vec<
    CommitEvent,
>)
    ensures
        views(insert@) == new_events(views(commits@), views(already_inserted@)),
{
    let ghost present = views(already_inserted@);
    let ghost absent = |commit: CommitView| !present.contains(commit.id);
    let ghost to_event = |commit: CommitView| event_of(commit);
    let mut insert: Vec<CommitEvent> = Vec::new();
    let mut i: usize = 0;
    proof {
        reveal(Seq::filter);
        assert(views(commits@).take(0).filter(absent).len() == 0);
        assert(views(insert@) == views(commits@).take(0).filter(absent).map_values(to_event));
    }
    while i < commits.len()
        invariant
            i <= commits.len(),
            present == views(already_inserted@),
            absent == |commit: CommitView| !present.contains(commit.id),
            to_event == |commit: CommitView| event_of(commit),
            views(insert@) == views(commits@).take(i as int).filter(absent).map_values(to_event),
        decreases commits.len() - i,
    {
        let ghost seen = views(commits@).take(i as int);
        proof {
            assert(views(commits@).take(i + 1) == seen.push(commits@[i as int]@));
            seen.lemma_filter_push(commits@[i as int]@, absent);
        }
        if !contains_text(already_inserted, &commits[i].id) {
            let event = commits[i].to_event();
            proof {
                assert(views(insert@.push(event)) == views(insert@).push(event@));
                assert(seen.filter(absent).push(commits@[i as int]@).map_values(to_event)
                    == seen.filter(absent).map_values(to_event).push(event@));
            }
            insert.push(event);
        }
        i += 1;
    }
    proof {
        assert(views(commits@).take(i as int) == views(commits@));
    }
    insert
}

/// What to do for `commits` on the store's answer: fail with a message if the
/// store failed; else insert the events of the commits that are new, in one
/// batch, or leave the store alone (`None`) if there are none.
pub fn events_to_insert(commits: &Vec<Commit>, outcome: &QueryOutcome) -> (r: Result<
    Option<Vec<CommitEvent>>,
    String,
>)
    ensures
        decision_view(r) == answer_outcome(views(commits@), outcome@),
        r matches Ok(Some(events)) ==> events@.len() > 0,
        r matches Ok(None) ==> outcome@ is Found && new_events(
            views(commits@),
            outcome@->Found_0,
        ).len() == 0,
{
    match outcome {
        QueryOutcome::FindFailed(cause) => Err(
            join2("Error loading commit ids from database: ", cause.as_str()),
        ),
        QueryOutcome::CollectFailed(cause) => Err(
            join2("Unable to collect all already existing commits: ", cause.as_str()),
        ),
        QueryOutcome::Found(already_inserted) => {
            let insert = select_new_events(commits, already_inserted);
            if insert.len() > 0 {
                Ok(Some(insert))
            } else {
                proof {
                    assert(views(insert@).len() == 0);
                    assert(new_events(views(commits@), views(already_inserted@))
                        == Seq::<CommitEventView>::empty());
                }
                Ok(None)
            }
        },
    }
}

} // verus!
