//! One scan-and-ingest cycle as a state machine.
//!
//! The cycle asks for one thing at a time (the next entry of the root
//! folder, the read of a repository, the ids that the store holds, an insert)
//! and decides on the answer what to ask next. The caller does what is asked
//! and hands the answer back. A repository that fails is reported and left:
//! the scan goes on with the next entry. Only a failure of the root folder
//! itself ends the cycle early.

use crate::commit::{Commit, CommitEvent, CommitEventView, CommitView};
use crate::dedup::{
    events_to_insert, existing_commits_filter, existing_filter, answer_outcome,
    insert_failure_text, IdFilter, IdFilterView, QueryOutcome, QueryOutcomeView,
};
use crate::text::{join2, views};
use crate::walker::{
    collect_commits, missing_message_text, name_outcome, open_failure_text, read_outcome,
    repository_name, step_fails, EntryName, EntryNameView, RepositoryRead, RepositoryReadView,
    WalkStepView,
};
use vstd::prelude::*;
use vstd::string::*;

verus! {

/// One entry of the root folder.
#[derive(Clone, Debug, PartialEq, Eq)]
pub struct DirectoryEntry {
    /// The entry's path, as it is shown in messages.
    pub path: String,
    /// The last component of the path.
    pub name: EntryName,
    pub is_dir: bool,
}

/// What a [`DirectoryEntry`] holds, with its texts as sequences of characters.
pub struct DirectoryEntryView {
    pub path: Seq<char>,
    pub name: EntryNameView,
    pub is_dir: bool,
}

impl View for DirectoryEntry {
    type V = DirectoryEntryView;

    open spec fn view(&self) -> DirectoryEntryView {
        DirectoryEntryView { path: self.path@, name: self.name@, is_dir: self.is_dir }
    }
}

/// What the caller hands back to the cycle.
#[derive(Clone, Debug, PartialEq, Eq)]
pub enum CycleEvent {
    /// The root folder was opened.
    FolderOpened,
    /// The root folder gave its next entry.
    Entry(DirectoryEntry),
    /// The root folder has no further entry.
    NoMoreEntries,
    /// The root folder could not be opened, or not be read further.
    ReadDirFailed(String),
    /// The kind of an entry could not be told.
    FileTypeFailed(String),
    /// The repository was read.
    Read(RepositoryRead),
    /// The store answered the question for the ids it holds.
    Queried(QueryOutcome),
    /// The store took the events.
    Inserted,
    /// The store refused the events.
    InsertFailed(String),
}

/// What a [`CycleEvent`] holds, with its texts as sequences of characters.
pub enum CycleEventView {
    FolderOpened,
    Entry(DirectoryEntryView),
    NoMoreEntries,
    ReadDirFailed(Seq<char>),
    FileTypeFailed(Seq<char>),
    Read(RepositoryReadView),
    Queried(QueryOutcomeView),
    Inserted,
    InsertFailed(Seq<char>),
}

impl View for CycleEvent {
    type V = CycleEventView;

    open spec fn view(&self) -> CycleEventView {
        match self {
            CycleEvent::FolderOpened => CycleEventView::FolderOpened,
            CycleEvent::Entry(entry) => CycleEventView::Entry(entry@),
            CycleEvent::NoMoreEntries => CycleEventView::NoMoreEntries,
            CycleEvent::ReadDirFailed(cause) => CycleEventView::ReadDirFailed(cause@),
            CycleEvent::FileTypeFailed(cause) => CycleEventView::FileTypeFailed(cause@),
            CycleEvent::Read(read) => CycleEventView::Read(read@),
            CycleEvent::Queried(outcome) => CycleEventView::Queried(outcome@),
            CycleEvent::Inserted => CycleEventView::Inserted,
            CycleEvent::InsertFailed(cause) => CycleEventView::InsertFailed(cause@),
        }
    }
}

/// Where a cycle stands.
#[derive(Clone, Debug, PartialEq, Eq)]
pub enum CycleState {
    /// Waiting for the root folder to be opened.
    Opening { folder: String },
    /// Waiting for the next entry of the root folder.
    Scanning,
    /// Waiting for the read of the repository at `path`.
    Walking { path: String, repository_name: String },
    /// Waiting for the ids that the store holds of `commits`.
    Querying { commits: Vec<Commit> },
    /// Waiting for the store to take `events`.
    Inserting { events: Vec<CommitEvent> },
    /// Every entry of the root folder was seen.
    Finished,
    /// The root folder failed; `error` says how.
    Aborted { error: String },
}

/// What a [`CycleState`] holds, with its texts as sequences of characters.
pub enum CycleStateView {
    Opening { folder: Seq<char> },
    Scanning,
    Walking { path: Seq<char>, repository_name: Seq<char> },
    Querying { commits: Seq<CommitView> },
    Inserting { events: Seq<CommitEventView> },
    Finished,
    Aborted { error: Seq<char> },
}

impl View for CycleState {
    type V = CycleStateView;

    open spec fn view(&self) -> CycleStateView {
        match self {
            CycleState::Opening { folder } => CycleStateView::Opening { folder: folder@ },
            CycleState::Scanning => CycleStateView::Scanning,
            CycleState::Walking { path, repository_name } => CycleStateView::Walking {
                path: path@,
                repository_name: repository_name@,
            },
            CycleState::Querying { commits } => CycleStateView::Querying {
                commits: views(commits@),
            },
            CycleState::Inserting { events } => CycleStateView::Inserting {
                events: views(events@),
            },
            CycleState::Finished => CycleStateView::Finished,
            CycleState::Aborted { error } => CycleStateView::Aborted { error: error@ },
        }
    }
}

/// A cycle: where it stands, and the failures of single repositories that it
/// has met so far, oldest first.
#[derive(Clone, Debug, PartialEq, Eq)]
pub struct Cycle {
    pub state: CycleState,
    pub errors: Vec<String>,
}

/// What a [`Cycle`] holds, with its texts as sequences of characters.
pub struct CycleView {
    pub state: CycleStateView,
    pub errors: Seq<Seq<char>>,
}

impl View for Cycle {
    type V = CycleView;

    open spec fn view(&self) -> CycleView {
        CycleView { state: self.state@, errors: views(self.errors@) }
    }
}

/// What the cycle asks the caller to do.
#[derive(Clone, Debug, PartialEq, Eq)]
pub enum CycleAction {
    /// Open the root folder at `path`.
    ReadFolder { path: String },
    /// Read the next entry of the root folder.
    NextEntry,
    /// Read the repository at `path`, on a worker of its own.
    Walk { path: String },
    /// Ask the store which events the filter accepts.
    Query(IdFilter),
    /// Insert the events, all in one batch.
    Insert(Vec<CommitEvent>),
    /// Nothing: the cycle is over.
    Done,
}

/// What a [`CycleAction`] holds, with its texts as sequences of characters.
pub enum CycleActionView {
    ReadFolder { path: Seq<char> },
    NextEntry,
    Walk { path: Seq<char> },
    Query(IdFilterView),
    Insert(Seq<CommitEventView>),
    Done,
}

impl View for CycleAction {
    type V = CycleActionView;

    open spec fn view(&self) -> CycleActionView {
        match self {
            CycleAction::ReadFolder { path } => CycleActionView::ReadFolder { path: path@ },
            CycleAction::NextEntry => CycleActionView::NextEntry,
            CycleAction::Walk { path } => CycleActionView::Walk { path: path@ },
            CycleAction::Query(filter) => CycleActionView::Query(filter@),
            CycleAction::Insert(events) => CycleActionView::Insert(views(events@)),
            CycleAction::Done => CycleActionView::Done,
        }
    }
}

pub open spec fn read_dir_failure_text(cause: Seq<char>) -> Seq<char> {
    "Unable to read repositories directory: "@ + cause
}

pub open spec fn file_type_failure_text(cause: Seq<char>) -> Seq<char> {
    "Unable to check directory entry for file-type: "@ + cause
}

/// A cycle at its start: about to open the root folder, with nothing to
/// report.
pub open spec fn started(folder: Seq<char>) -> CycleView {
    CycleView { state: CycleStateView::Opening { folder }, errors: Seq::empty() }
}

/// The cycle after one repository failed with `message`: the failure is
/// noted and the scan goes on.
pub open spec fn repository_failed(cycle: CycleView, message: Seq<char>) -> CycleView {
    CycleView { state: CycleStateView::Scanning, errors: cycle.errors.push(message) }
}

/// The cycle in another state, with the same failures noted.
pub open spec fn moved(cycle: CycleView, state: CycleStateView) -> CycleView {
    CycleView { state, errors: cycle.errors }
}

/// What the cycle asks for in a state.
pub open spec fn pending(state: CycleStateView) -> CycleActionView {
    match state {
        CycleStateView::Opening { folder } => CycleActionView::ReadFolder { path: folder },
        CycleStateView::Scanning => CycleActionView::NextEntry,
        CycleStateView::Walking { path, repository_name } => CycleActionView::Walk { path },
        CycleStateView::Querying { commits } => CycleActionView::Query(existing_filter(commits)),
        CycleStateView::Inserting { events } => CycleActionView::Insert(events),
        CycleStateView::Finished => CycleActionView::Done,
        CycleStateView::Aborted { error } => CycleActionView::Done,
    }
}

/// The cycle after an entry of the root folder: what is no directory is
/// passed over; a directory is walked if it has a name to go by.
pub open spec fn after_entry(cycle: CycleView, entry: DirectoryEntryView) -> CycleView {
    if !entry.is_dir {
        cycle
    } else {
        match name_outcome(entry.name) {
            Err(message) => repository_failed(cycle, message),
            Ok(repository_name) => moved(
                cycle,
                CycleStateView::Walking { path: entry.path, repository_name },
            ),
        }
    }
}

/// The cycle after the read of the repository that it was waiting for.
pub open spec fn after_read(
    cycle: CycleView,
    path: Seq<char>,
    repository_name: Seq<char>,
    read: RepositoryReadView,
) -> CycleView {
    match read_outcome(path, repository_name, read) {
        Err(message) => repository_failed(cycle, message),
        Ok(commits) => moved(cycle, CycleStateView::Querying { commits }),
    }
}

/// The cycle after the store's answer: where nothing is new, the store is
/// left alone and the scan goes on.
pub open spec fn after_answer(
    cycle: CycleView,
    commits: Seq<CommitView>,
    outcome: QueryOutcomeView,
) -> CycleView {
    match answer_outcome(commits, outcome) {
        Err(message) => repository_failed(cycle, message),
        Ok(events) => if events.len() == 0 {
            moved(cycle, CycleStateView::Scanning)
        } else {
            moved(cycle, CycleStateView::Inserting { events })
        },
    }
}

/// The cycle after an event. An event that the cycle was not waiting for
/// changes nothing.
pub open spec fn next(cycle: CycleView, event: CycleEventView) -> CycleView {
    match cycle.state {
        CycleStateView::Opening { folder } => match event {
            CycleEventView::FolderOpened => moved(cycle, CycleStateView::Scanning),
            CycleEventView::ReadDirFailed(cause) => moved(
                cycle,
                CycleStateView::Aborted { error: read_dir_failure_text(cause) },
            ),
            _ => cycle,
        },
        CycleStateView::Scanning => match event {
            CycleEventView::Entry(entry) => after_entry(cycle, entry),
            CycleEventView::NoMoreEntries => moved(cycle, CycleStateView::Finished),
            CycleEventView::ReadDirFailed(cause) => moved(
                cycle,
                CycleStateView::Aborted { error: read_dir_failure_text(cause) },
            ),
            CycleEventView::FileTypeFailed(cause) => moved(
                cycle,
                CycleStateView::Aborted { error: file_type_failure_text(cause) },
            ),
            _ => cycle,
        },
        CycleStateView::Walking { path, repository_name } => match event {
            CycleEventView::Read(read) => after_read(cycle, path, repository_name, read),
            _ => cycle,
        },
        CycleStateView::Querying { commits } => match event {
            CycleEventView::Queried(outcome) => after_answer(cycle, commits, outcome),
            _ => cycle,
        },
        CycleStateView::Inserting { events } => match event {
            CycleEventView::Inserted => moved(cycle, CycleStateView::Scanning),
            CycleEventView::InsertFailed(cause) => repository_failed(
                cycle,
                insert_failure_text(cause),
            ),
            _ => cycle,
        },
        CycleStateView::Finished => cycle,
        CycleStateView::Aborted { error } => cycle,
    }
}

/// The cycle after a sequence of events, first to last.
pub open spec fn run(cycle: CycleView, events: Seq<CycleEventView>) -> CycleView
    decreases events.len(),
{
    if events.len() == 0 {
        cycle
    } else {
        run(next(cycle, events.first()), events.drop_first())
    }
}

/// What a cycle reports at its end: the failure of the root folder, if it
/// ended on one.
pub open spec fn fatal(state: CycleStateView) -> Option<Seq<char>> {
    match state {
        CycleStateView::Aborted { error } => Some(error),
        _ => None,
    }
}

/// Whether the cycle asks for nothing more.
pub open spec fn over(state: CycleStateView) -> bool {
    state is Finished || state is Aborted
}

/// A cycle in `state` that has met no failure yet.
pub open spec fn fresh(state: CycleStateView) -> CycleView {
    CycleView { state, errors: Seq::empty() }
}

/// The failures that a cycle in `state` notes over `events`, oldest first.
pub open spec fn reported(state: CycleStateView, events: Seq<CycleEventView>) -> Seq<Seq<char>> {
    run(fresh(state), events).errors
}

/// What is no directory is passed over without a trace: the cycle is as it
/// was, and asks for the next entry.
pub proof fn lemma_files_are_passed_over(cycle: CycleView, entry: DirectoryEntryView)
    requires
        cycle.state is Scanning,
        !entry.is_dir,
    ensures
        next(cycle, CycleEventView::Entry(entry)) == cycle,
        pending(next(cycle, CycleEventView::Entry(entry)).state) == CycleActionView::NextEntry,
{
}

/// A scanning cycle asks for a walk on a directory with a name and on
/// nothing else; the walk is of that directory, under that name.
pub proof fn lemma_only_directories_are_walked(cycle: CycleView, event: CycleEventView)
    requires
        cycle.state is Scanning,
    ensures
        next(cycle, event).state is Walking <==> (event matches CycleEventView::Entry(entry)
            && entry.is_dir && entry.name is Name),
        next(cycle, event).state matches CycleStateView::Walking { path, repository_name }
            ==> event->Entry_0.path == path && event->Entry_0.name == EntryNameView::Name(
            repository_name,
        ),
{
}

/// A cycle over the root folder alone walks nothing and notes nothing where
/// no entry is a directory.
pub proof fn lemma_folder_of_files(cycle: CycleView, entries: Seq<DirectoryEntryView>)
    requires
        cycle.state is Scanning,
        forall|i: int| 0 <= i < entries.len() ==> !(#[trigger] entries[i]).is_dir,
    ensures
        run(cycle, entries.map_values(|entry: DirectoryEntryView| CycleEventView::Entry(entry)))
            == cycle,
    decreases entries.len(),
{
    let events = entries.map_values(|entry: DirectoryEntryView| CycleEventView::Entry(entry));
    if entries.len() > 0 {
        assert(!entries[0].is_dir);
        assert(events.first() == CycleEventView::Entry(entries[0]));
        assert(events.drop_first() == entries.drop_first().map_values(
            |entry: DirectoryEntryView| CycleEventView::Entry(entry),
        ));
        assert forall|i: int| 0 <= i < entries.drop_first().len() implies !(
        #[trigger] entries.drop_first()[i]).is_dir by {
            assert(!entries[i + 1].is_dir);
        }
        lemma_folder_of_files(cycle, entries.drop_first());
    }
}

/// Running over two sequences of events one after the other is running over
/// both in one.
pub proof fn lemma_run_in_two(
    cycle: CycleView,
    first: Seq<CycleEventView>,
    second: Seq<CycleEventView>,
)
    ensures
        run(cycle, first + second) == run(run(cycle, first), second),
    decreases first.len(),
{
    if first.len() == 0 {
        assert(first + second == second);
    } else {
        assert((first + second).first() == first.first());
        assert((first + second).drop_first() == first.drop_first() + second);
        lemma_run_in_two(next(cycle, first.first()), first.drop_first(), second);
    }
}

/// Files among directories leave no trace. Where the cycle is scanning when
/// an entry arrives that is no directory, the cycle ends as it would have
/// ended without that entry, whatever comes before and after: the same
/// repositories are walked, the same events inserted, the same failures
/// noted.
pub proof fn lemma_files_leave_no_trace(
    cycle: CycleView,
    before: Seq<CycleEventView>,
    entry: DirectoryEntryView,
    after: Seq<CycleEventView>,
)
    requires
        run(cycle, before).state is Scanning,
        !entry.is_dir,
    ensures
        run(cycle, before + seq![CycleEventView::Entry(entry)] + after) == run(
            cycle,
            before + after,
        ),
{
    let one = seq![CycleEventView::Entry(entry)];
    lemma_run_in_two(cycle, before + one, after);
    lemma_run_in_two(cycle, before, one);
    lemma_run_in_two(cycle, before, after);
    let reached = run(cycle, before);
    assert(run(reached, one) == reached) by {
        assert(one.first() == CycleEventView::Entry(entry));
        assert(one.drop_first().len() == 0);
        assert(run(next(reached, one.first()), one.drop_first()) == next(reached, one.first()));
    }
}

/// What an event does to a cycle does not depend on the failures noted
/// before: the state after it is the same, and the failures are the old ones
/// followed by what the event adds.
pub proof fn lemma_step_ignores_history(cycle: CycleView, event: CycleEventView)
    ensures
        next(cycle, event).state == next(fresh(cycle.state), event).state,
        next(cycle, event).errors == cycle.errors + next(fresh(cycle.state), event).errors,
{
    let plain = fresh(cycle.state);
    assert(cycle.errors + plain.errors == cycle.errors);
    assert forall|message: Seq<char>|
        cycle.errors.push(message) == cycle.errors + #[trigger] plain.errors.push(message) by {
        assert(cycle.errors.push(message) =~= cycle.errors + plain.errors.push(message));
    }
}

/// What a run of events does to a cycle does not depend on the failures
/// noted before it.
pub proof fn lemma_run_ignores_history(cycle: CycleView, events: Seq<CycleEventView>)
    ensures
        run(cycle, events).state == run(fresh(cycle.state), events).state,
        run(cycle, events).errors == cycle.errors + reported(cycle.state, events),
    decreases events.len(),
{
    let plain = fresh(cycle.state);
    if events.len() == 0 {
        assert(cycle.errors + plain.errors == cycle.errors);
    } else {
        let event = events.first();
        let rest = events.drop_first();
        lemma_step_ignores_history(cycle, event);
        lemma_run_ignores_history(next(cycle, event), rest);
        lemma_run_ignores_history(next(plain, event), rest);
        let added = next(plain, event).errors;
        let later = reported(next(cycle, event).state, rest);
        assert(next(plain, event).state == next(cycle, event).state);
        assert((cycle.errors + added) + later == cycle.errors + (added + later));
    }
}

/// A repository that fails is isolated. Take a scanning cycle, a directory
/// whose read fails, and any events after it. Compared with the same cycle
/// over the later events alone, the cycle ends in the same state and notes
/// the same failures, with one more before them: the failure of that
/// repository. This holds of every length of later events, so the cycle asks
/// the same of its caller at each step: what a sibling has to insert is
/// inserted.
pub proof fn lemma_failed_repository_is_isolated(
    cycle: CycleView,
    entry: DirectoryEntryView,
    read: RepositoryReadView,
    later: Seq<CycleEventView>,
)
    requires
        cycle.state is Scanning,
        entry.is_dir,
        entry.name is Name,
        read_outcome(entry.path, entry.name->Name_0, read) is Err,
    ensures
        ({
            let failing = seq![CycleEventView::Entry(entry), CycleEventView::Read(read)];
            let message = read_outcome(entry.path, entry.name->Name_0, read)->Err_0;
            &&& run(cycle, failing + later).state == run(cycle, later).state
            &&& pending(run(cycle, failing + later).state) == pending(run(cycle, later).state)
            &&& run(cycle, later).errors == cycle.errors + reported(
                CycleStateView::Scanning,
                later,
            )
            &&& run(cycle, failing + later).errors == cycle.errors.push(message) + reported(
                CycleStateView::Scanning,
                later,
            )
        }),
{
    let failing = seq![CycleEventView::Entry(entry), CycleEventView::Read(read)];
    let message = read_outcome(entry.path, entry.name->Name_0, read)->Err_0;
    let walking = next(cycle, CycleEventView::Entry(entry));
    assert(run(cycle, failing) == repository_failed(cycle, message)) by {
        assert(failing.first() == CycleEventView::Entry(entry));
        assert(failing.drop_first().first() == CycleEventView::Read(read));
        assert(failing.drop_first().drop_first().len() == 0);
        assert(run(next(walking, CycleEventView::Read(read)), failing.drop_first().drop_first())
            == next(walking, CycleEventView::Read(read)));
        assert(run(walking, failing.drop_first()) == next(walking, CycleEventView::Read(read)));
    }
    lemma_run_in_two(cycle, failing, later);
    lemma_run_ignores_history(repository_failed(cycle, message), later);
    lemma_run_ignores_history(cycle, later);
}

/// A directory that cannot be opened as a repository costs the cycle one
/// failure, which names the directory's path and the cause; every other
/// entry of the root folder is dealt with as if that directory were not
/// there.
pub proof fn lemma_corrupt_repository_is_isolated(
    cycle: CycleView,
    entry: DirectoryEntryView,
    cause: Seq<char>,
    later: Seq<CycleEventView>,
)
    requires
        cycle.state is Scanning,
        entry.is_dir,
        entry.name is Name,
    ensures
        ({
            let corrupt = seq![
                CycleEventView::Entry(entry),
                CycleEventView::Read(RepositoryReadView::OpenFailed(cause)),
            ];
            &&& run(cycle, corrupt + later).state == run(cycle, later).state
            &&& pending(run(cycle, corrupt + later).state) == pending(run(cycle, later).state)
            &&& run(cycle, later).errors == cycle.errors + reported(
                CycleStateView::Scanning,
                later,
            )
            &&& run(cycle, corrupt + later).errors == cycle.errors.push(
                open_failure_text(entry.path, cause),
            ) + reported(CycleStateView::Scanning, later)
        }),
{
    lemma_failed_repository_is_isolated(
        cycle,
        entry,
        RepositoryReadView::OpenFailed(cause),
        later,
    );
}

/// A commit without a message fails its repository as a whole. Where the
/// walk meets such a commit before any other failure, the cycle notes one
/// failure, which ends in the repository's path, and goes on with the next
/// entry of the root folder: the store is neither asked nor written to, so
/// nothing of the commits visited before is inserted.
pub proof fn lemma_missing_message_fails_repository(
    cycle: CycleView,
    steps: Seq<WalkStepView>,
    at: int,
)
    requires
        cycle.state is Walking,
        0 <= at < steps.len(),
        steps[at] matches WalkStepView::Found(data) && data.message is None,
        forall|i: int| 0 <= i < at ==> !step_fails(#[trigger] steps[i]),
    ensures
        ({
            let path = cycle.state->Walking_path;
            let message = missing_message_text(path);
            let read = RepositoryReadView::Walked { sorting: None, head: None, steps };
            &&& next(cycle, CycleEventView::Read(read)) == repository_failed(cycle, message)
            &&& pending(next(cycle, CycleEventView::Read(read)).state)
                == CycleActionView::NextEntry
            &&& message.len() >= path.len()
            &&& message.subrange(message.len() - path.len(), message.len() as int) == path
        }),
{
    let path = cycle.state->Walking_path;
    let repository_name = cycle.state->Walking_repository_name;
    crate::walker::lemma_first_failure_decides(path, repository_name, steps, at);
    let message = missing_message_text(path);
    assert(message.subrange(message.len() - path.len(), message.len() as int) == path);
}

fn duplicate_events(events: &Vec<CommitEvent>) -> (copy: Vec<CommitEvent>)
    ensures
        views(copy@) == views(events@),
{
    let mut copy: Vec<CommitEvent> = Vec::new();
    let mut i: usize = 0;
    while i < events.len()
        invariant
            i <= events.len(),
            copy@.len() == i,
            forall|j: int| 0 <= j < i ==> copy@[j]@ == events@[j]@,
        decreases events.len() - i,
    {
        let event = &events[i];
        copy.push(
            CommitEvent {
                timing: event.timing,
                id: event.id.clone(),
                plugin: event.plugin.duplicate(),
                event: event.event.duplicate(),
            },
        );
        i += 1;
    }
    proof {
        assert(views(copy@) == views(events@));
    }
    copy
}

fn note_failure(errors: Vec<String>, message: String) -> (cycle: Cycle)
    ensures
        cycle@ == (CycleView {
            state: CycleStateView::Scanning,
            errors: views(errors@).push(message@),
        }),
{
    let mut errors = errors;
    proof {
        assert(views(errors@.push(message)) == views(errors@).push(message@));
    }
    errors.push(message);
    Cycle { state: CycleState::Scanning, errors }
}

impl Cycle {
    /// A cycle at its start, over the root folder at `folder`.
    pub fn begin(folder: &str) -> (cycle: Cycle)
        ensures
            cycle@ == started(folder@),
    {
        let errors: Vec<String> = Vec::new();
        proof {
            assert(views(errors@) == Seq::<Seq<char>>::empty());
        }
        Cycle { state: CycleState::Opening { folder: String::from_str(folder) }, errors }
    }

    /// What the cycle is waiting for the caller to do.
    pub fn pending(&self) -> (action: CycleAction)
        ensures
            action@ == pending(self@.state),
    {
        match &self.state {
            CycleState::Opening { folder } => CycleAction::ReadFolder { path: folder.clone() },
            CycleState::Scanning => CycleAction::NextEntry,
            CycleState::Walking { path, repository_name } => CycleAction::Walk {
                path: path.clone(),
            },
            CycleState::Querying { commits } => CycleAction::Query(
                existing_commits_filter(commits),
            ),
            CycleState::Inserting { events } => CycleAction::Insert(duplicate_events(events)),
            CycleState::Finished => CycleAction::Done,
            CycleState::Aborted { error } => CycleAction::Done,
        }
    }

    /// Whether the cycle asks for nothing more.
    pub fn is_over(&self) -> (b: bool)
        ensures
            b == over(self@.state),
    {
        match &self.state {
            CycleState::Finished => true,
            CycleState::Aborted { error } => true,
            _ => false,
        }
    }

    /// The cycle after `event`.
    pub fn handle(self, event: &CycleEvent) -> (after: Cycle)
        ensures
            after@ == next(self@, event@),
    {
        let Cycle { state, errors } = self;
        match state {
            CycleState::Opening { folder } => match event {
                CycleEvent::FolderOpened => Cycle { state: CycleState::Scanning, errors },
                CycleEvent::ReadDirFailed(cause) => Cycle {
                    state: CycleState::Aborted {
                        error: join2("Unable to read repositories directory: ", cause.as_str()),
                    },
                    errors,
                },
                _ => Cycle { state: CycleState::Opening { folder }, errors },
            },
            CycleState::Scanning => match event {
                CycleEvent::Entry(entry) => {
                    if !entry.is_dir {
                        Cycle { state: CycleState::Scanning, errors }
                    } else {
                        match repository_name(&entry.name) {
                            Err(message) => note_failure(errors, message),
                            Ok(repository_name) => Cycle {
                                state: CycleState::Walking {
                                    path: entry.path.clone(),
                                    repository_name,
                                },
                                errors,
                            },
                        }
                    }
                },
                CycleEvent::NoMoreEntries => Cycle { state: CycleState::Finished, errors },
                CycleEvent::ReadDirFailed(cause) => Cycle {
                    state: CycleState::Aborted {
                        error: join2("Unable to read repositories directory: ", cause.as_str()),
                    },
                    errors,
                },
                CycleEvent::FileTypeFailed(cause) => Cycle {
                    state: CycleState::Aborted {
                        error: join2(
                            "Unable to check directory entry for file-type: ",
                            cause.as_str(),
                        ),
                    },
                    errors,
                },
                _ => Cycle { state: CycleState::Scanning, errors },
            },
            CycleState::Walking { path, repository_name } => match event {
                CycleEvent::Read(read) => match collect_commits(
                    path.as_str(),
                    repository_name.as_str(),
                    read,
                ) {
                    Err(message) => note_failure(errors, message),
                    Ok(commits) => Cycle { state: CycleState::Querying { commits }, errors },
                },
                _ => Cycle { state: CycleState::Walking { path, repository_name }, errors },
            },
            CycleState::Querying { commits } => match event {
                CycleEvent::Queried(outcome) => match events_to_insert(&commits, outcome) {
                    Err(message) => note_failure(errors, message),
                    Ok(None) => Cycle { state: CycleState::Scanning, errors },
                    Ok(Some(events)) => Cycle { state: CycleState::Inserting { events }, errors },
                },
                _ => Cycle { state: CycleState::Querying { commits }, errors },
            },
            CycleState::Inserting { events } => match event {
                CycleEvent::Inserted => Cycle { state: CycleState::Scanning, errors },
                CycleEvent::InsertFailed(cause) => note_failure(
                    errors,
                    join2("Unable to insert into Database: ", cause.as_str()),
                ),
                _ => Cycle { state: CycleState::Inserting { events }, errors },
            },
            CycleState::Finished => Cycle { state: CycleState::Finished, errors },
            CycleState::Aborted { error } => Cycle { state: CycleState::Aborted { error }, errors },
        }
    }

    /// The cycle after `events`, first to last.
    pub fn replay(self, events: &Vec<CycleEvent>) -> (after: Cycle)
        ensures
            after@ == run(self@, views(events@)),
    {
        let ghost before = self@;
        let mut cycle = self;
        let mut i: usize = 0;
        proof {
            assert(views(events@).skip(0) == views(events@));
        }
        while i < events.len()
            invariant
                i <= events.len(),
                run(before, views(events@)) == run(cycle@, views(events@).skip(i as int)),
            decreases events.len() - i,
        {
            proof {
                let left = views(events@).skip(i as int);
                assert(left.first() == events@[i as int]@);
                assert(left.drop_first() == views(events@).skip(i + 1));
            }
            cycle = cycle.handle(&events[i]);
            i += 1;
        }
        cycle
    }
}

} // verus!
