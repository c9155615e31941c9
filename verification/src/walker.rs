//! The repository walker: from what was read of one repository to its
//! commits, or to the one message that says why there are none.
//!
//! Reading the repository is the caller's part. It hands in what each stage
//! of the read gave: the open, the start of the history walk, its two
//! settings, and then one step per commit in the order of the walk. The first
//! stage that failed decides; a walk gives its commits only if every step of
//! it gave one.

use crate::commit::{Commit, CommitView};
use crate::text::{join2, join4, join6, optional_text, views};
use crate::time::{normalize, normalized, TimeError, UtcInstant};
use vstd::prelude::*;
use vstd::string::*;

verus! {

/// The last component of a directory's path, as far as it could be had.
#[derive(Clone, Debug, PartialEq, Eq)]
pub enum EntryName {
    /// The path has no last component.
    Missing,
    /// The last component cannot be shown as text.
    NotDisplayable,
    Name(String),
}

/// What a [`EntryName`] holds, with its texts as sequences of characters.
pub enum EntryNameView {
    Missing,
    NotDisplayable,
    Name(Seq<char>),
}

impl View for EntryName {
    type V = EntryNameView;

    open spec fn view(&self) -> EntryNameView {
        match self {
            EntryName::Missing => EntryNameView::Missing,
            EntryName::NotDisplayable => EntryNameView::NotDisplayable,
            EntryName::Name(name) => EntryNameView::Name(name@),
        }
    }
}

/// One commit as the repository has it.
#[derive(Clone, Debug, PartialEq, Eq)]
pub struct CommitData {
    pub id: String,
    /// The message, if the commit has one that can be read.
    pub message: Option<String>,
    pub author: String,
    /// Seconds since the epoch.
    pub seconds: i64,
    /// Minutes that the author's clock was west of UTC.
    pub offset_minutes: i32,
}

/// What a [`CommitData`] holds, with its texts as sequences of characters.
pub struct CommitDataView {
    pub id: Seq<char>,
    pub message: Option<Seq<char>>,
    pub author: Seq<char>,
    pub seconds: int,
    pub offset_minutes: int,
}

impl View for CommitData {
    type V = CommitDataView;

    open spec fn view(&self) -> CommitDataView {
        CommitDataView {
            id: self.id@,
            message: optional_text(self.message),
            author: self.author@,
            seconds: self.seconds as int,
            offset_minutes: self.offset_minutes as int,
        }
    }
}

/// One step of the walk through a repository's history.
#[derive(Clone, Debug, PartialEq, Eq)]
pub enum WalkStep {
    /// The walk could not go on; the text says why.
    Broken(String),
    /// The walk named a commit that the repository could not produce.
    Unreadable(String),
    Found(CommitData),
}

/// What a [`WalkStep`] holds, with its texts as sequences of characters.
pub enum WalkStepView {
    Broken(Seq<char>),
    Unreadable(Seq<char>),
    Found(CommitDataView),
}

impl View for WalkStep {
    type V = WalkStepView;

    open spec fn view(&self) -> WalkStepView {
        match self {
            WalkStep::Broken(cause) => WalkStepView::Broken(cause@),
            WalkStep::Unreadable(cause) => WalkStepView::Unreadable(cause@),
            WalkStep::Found(data) => WalkStepView::Found(data@),
        }
    }
}

/// What reading one repository gave.
#[derive(Clone, Debug, PartialEq, Eq)]
pub enum RepositoryRead {
    /// The worker that was to read the repository did not come back.
    WorkerFailed(String),
    /// The directory could not be opened as a repository.
    OpenFailed(String),
    /// The walk through the history could not be started.
    RevwalkFailed(String),
    /// The walk was started. `sorting` and `head` hold what went wrong with
    /// ordering it by time and with seeding it at the head; `steps` holds what
    /// it visited if nothing did.
    Walked { sorting: Option<String>, head: Option<String>, steps: Vec<WalkStep> },
}

/// What a [`RepositoryRead`] holds, with its texts as sequences of characters.
pub enum RepositoryReadView {
    WorkerFailed(Seq<char>),
    OpenFailed(Seq<char>),
    RevwalkFailed(Seq<char>),
    Walked { sorting: Option<Seq<char>>, head: Option<Seq<char>>, steps: Seq<WalkStepView> },
}

impl View for RepositoryRead {
    type V = RepositoryReadView;

    open spec fn view(&self) -> RepositoryReadView {
        match self {
            RepositoryRead::WorkerFailed(cause) => RepositoryReadView::WorkerFailed(cause@),
            RepositoryRead::OpenFailed(cause) => RepositoryReadView::OpenFailed(cause@),
            RepositoryRead::RevwalkFailed(cause) => RepositoryReadView::RevwalkFailed(cause@),
            RepositoryRead::Walked { sorting, head, steps } => RepositoryReadView::Walked {
                sorting: optional_text(*sorting),
                head: optional_text(*head),
                steps: views(steps@),
            },
        }
    }
}

pub open spec fn name_not_displayable_text() -> Seq<char> {
    "Unable to read os-string to internal string."@
}

pub open spec fn no_last_component_text() -> Seq<char> {
    "Unable to identify repository name. There is no last path component."@
}

pub open spec fn worker_failure_text(cause: Seq<char>) -> Seq<char> {
    "Unable to join handle on update thread: "@ + cause
}

pub open spec fn open_failure_text(path: Seq<char>, cause: Seq<char>) -> Seq<char> {
    "Unable to read repository: \nPath: "@ + path + " \nError: "@ + cause
}

pub open spec fn revwalk_failure_text(path: Seq<char>, cause: Seq<char>) -> Seq<char> {
    "Unable to read commits of repository: \nPath: "@ + path + " \nError: "@ + cause
}

pub open spec fn setup_failure_text(
    path: Seq<char>,
    sorting: Seq<char>,
    head: Seq<char>,
) -> Seq<char> {
    "Was unable to set sorting and append head to revwalk. \nPath: "@ + path
        + " \nError Sorting: "@ + sorting + " \nError Head: "@ + head
}

pub open spec fn sorting_failure_text(path: Seq<char>, cause: Seq<char>) -> Seq<char> {
    "Was unable to set sorting: \nPath: "@ + path + " \nError: "@ + cause
}

pub open spec fn head_failure_text(path: Seq<char>, cause: Seq<char>) -> Seq<char> {
    "Was unable to append head: \nPath: "@ + path + " \nError: "@ + cause
}

pub open spec fn step_failure_text(path: Seq<char>, cause: Seq<char>) -> Seq<char> {
    "Unable to walk along commit graph: \nPath: "@ + path + " \nError: "@ + cause
}

pub open spec fn lookup_failure_text(path: Seq<char>, cause: Seq<char>) -> Seq<char> {
    "Unable to find a commit from revwalk in repository: \nPath: "@ + path + " \nError: "@
        + cause
}

pub open spec fn missing_message_text(path: Seq<char>) -> Seq<char> {
    "Unable to read commit message: \nPath: "@ + path
}

pub open spec fn time_error_text(error: TimeError) -> Seq<char> {
    match error {
        TimeError::OffsetOutOfRange => "the offset from UTC is out of range"@,
        TimeError::TimestampOutOfRange => "the timestamp is out of range"@,
    }
}

pub open spec fn time_failure_text(path: Seq<char>, error: TimeError) -> Seq<char> {
    "Unable to read commit time: \nPath: "@ + path + " \nError: "@ + time_error_text(error)
}

/// The name of the repository in a directory: the directory's own name.
pub open spec fn name_outcome(name: EntryNameView) -> Result<Seq<char>, Seq<char>> {
    match name {
        EntryNameView::Name(text) => Ok(text),
        EntryNameView::NotDisplayable => Err(name_not_displayable_text()),
        EntryNameView::Missing => Err(no_last_component_text()),
    }
}

/// What one step of the walk contributes: the commit it visited, or the
/// message that ends the walk. A commit without a message is refused, and so
/// is one whose time cannot be normalised; the message is asked for first.
pub open spec fn step_outcome(
    path: Seq<char>,
    repository_name: Seq<char>,
    step: WalkStepView,
) -> Result<CommitView, Seq<char>> {
    match step {
        WalkStepView::Broken(cause) => Err(step_failure_text(path, cause)),
        WalkStepView::Unreadable(cause) => Err(lookup_failure_text(path, cause)),
        WalkStepView::Found(data) => match data.message {
            None => Err(missing_message_text(path)),
            Some(message) => match normalized(data.seconds, data.offset_minutes) {
                Err(error) => Err(time_failure_text(path, error)),
                Ok(millis) => Ok(
                    CommitView {
                        id: data.id,
                        message,
                        author: data.author,
                        time: UtcInstant { millis: millis as i64 },
                        repository_name,
                    },
                ),
            },
        },
    }
}

/// Whether a step ends the walk, whatever the repository.
pub open spec fn step_fails(step: WalkStepView) -> bool {
    match step {
        WalkStepView::Broken(_) => true,
        WalkStepView::Unreadable(_) => true,
        WalkStepView::Found(data) => data.message is None || normalized(
            data.seconds,
            data.offset_minutes,
        ) is Err,
    }
}

/// What a walk gives: the commits of its steps in order, or the message of
/// the first step that has none.
pub open spec fn steps_outcome(
    path: Seq<char>,
    repository_name: Seq<char>,
    steps: Seq<WalkStepView>,
) -> Result<Seq<CommitView>, Seq<char>>
    decreases steps.len(),
{
    if steps.len() == 0 {
        Ok(Seq::empty())
    } else {
        match steps_outcome(path, repository_name, steps.drop_last()) {
            Err(message) => Err(message),
            Ok(commits) => match step_outcome(path, repository_name, steps.last()) {
                Err(message) => Err(message),
                Ok(commit) => Ok(commits.push(commit)),
            },
        }
    }
}

/// What the read of a repository gives: the first stage that failed decides.
/// Of the two settings of the walk both are looked at, and a message of its
/// own stands for both having failed.
pub open spec fn read_outcome(
    path: Seq<char>,
    repository_name: Seq<char>,
    read: RepositoryReadView,
) -> Result<Seq<CommitView>, Seq<char>> {
    match read {
        RepositoryReadView::WorkerFailed(cause) => Err(worker_failure_text(cause)),
        RepositoryReadView::OpenFailed(cause) => Err(open_failure_text(path, cause)),
        RepositoryReadView::RevwalkFailed(cause) => Err(revwalk_failure_text(path, cause)),
        RepositoryReadView::Walked { sorting, head, steps } => match (sorting, head) {
            (None, None) => steps_outcome(path, repository_name, steps),
            (Some(first), Some(second)) => Err(setup_failure_text(path, first, second)),
            (Some(cause), None) => Err(sorting_failure_text(path, cause)),
            (None, Some(cause)) => Err(head_failure_text(path, cause)),
        },
    }
}

/// The view of a result that holds one commit.
pub open spec fn commit_result_view(r: Result<Commit, String>) -> Result<CommitView, Seq<char>> {
    match r {
        Ok(commit) => Ok(commit@),
        Err(message) => Err(message@),
    }
}

/// The view of a result that holds commits.
pub open spec fn commits_result_view(r: Result<Vec<Commit>, String>) -> Result<
    Seq<CommitView>,
    Seq<char>,
> {
    match r {
        Ok(commits) => Ok(views(commits@)),
        Err(message) => Err(message@),
    }
}

/// The view of a result that holds a text.
pub open spec fn text_result_view(r: Result<String, String>) -> Result<Seq<char>, Seq<char>> {
    match r {
        Ok(text) => Ok(text@),
        Err(message) => Err(message@),
    }
}

/// A step fails for one repository exactly if it fails for every other.
pub proof fn lemma_step_fails(path: Seq<char>, repository_name: Seq<char>, step: WalkStepView)
    ensures
        step_outcome(path, repository_name, step) is Err <==> step_fails(step),
{
}

/// A walk whose beginning fails gives the message of that beginning.
pub proof fn lemma_failed_prefix_decides(
    path: Seq<char>,
    repository_name: Seq<char>,
    steps: Seq<WalkStepView>,
    n: int,
)
    requires
        0 <= n <= steps.len(),
        steps_outcome(path, repository_name, steps.take(n)) is Err,
    ensures
        steps_outcome(path, repository_name, steps) == steps_outcome(
            path,
            repository_name,
            steps.take(n),
        ),
    decreases steps.len(),
{
    if n == steps.len() {
        assert(steps.take(n) == steps);
    } else {
        assert(steps.drop_last().take(n) == steps.take(n));
        lemma_failed_prefix_decides(path, repository_name, steps.drop_last(), n);
    }
}

/// The first step that fails ends the walk with its message: nothing of what
/// was visited before it is handed out.
pub proof fn lemma_first_failure_decides(
    path: Seq<char>,
    repository_name: Seq<char>,
    steps: Seq<WalkStepView>,
    at: int,
)
    requires
        0 <= at < steps.len(),
        step_fails(steps[at]),
        forall|i: int| 0 <= i < at ==> !step_fails(#[trigger] steps[i]),
    ensures
        steps_outcome(path, repository_name, steps) is Err,
        steps_outcome(path, repository_name, steps) == Err::<Seq<CommitView>, Seq<char>>(
            step_outcome(path, repository_name, steps[at])->Err_0,
        ),
{
    lemma_all_steps_succeed(path, repository_name, steps.take(at));
    assert(steps.take(at + 1).drop_last() == steps.take(at));
    assert(steps.take(at + 1).last() == steps[at]);
    lemma_failed_prefix_decides(path, repository_name, steps, at + 1);
}

/// A walk of which no step fails gives one commit per step, in order.
pub proof fn lemma_all_steps_succeed(
    path: Seq<char>,
    repository_name: Seq<char>,
    steps: Seq<WalkStepView>,
)
    requires
        forall|i: int| 0 <= i < steps.len() ==> !step_fails(#[trigger] steps[i]),
    ensures
        steps_outcome(path, repository_name, steps) is Ok,
        steps_outcome(path, repository_name, steps)->Ok_0.len() == steps.len(),
        forall|i: int|
            0 <= i < steps.len() ==> step_outcome(path, repository_name, steps[i]) == Ok::<
                CommitView,
                Seq<char>,
            >(#[trigger] steps_outcome(path, repository_name, steps)->Ok_0[i]),
    decreases steps.len(),
{
    if steps.len() > 0 {
        lemma_all_steps_succeed(path, repository_name, steps.drop_last());
        assert(!step_fails(steps.last()));
    }
}

/// The name of the repository in the directory called `name`.
pub fn repository_name(name: &EntryName) -> (r: Result<String, String>)
    ensures
        text_result_view(r) == name_outcome(name@),
{
    match name {
        EntryName::Name(text) => Ok(text.clone()),
        EntryName::NotDisplayable => Err(
            String::from_str("Unable to read os-string to internal string."),
        ),
        EntryName::Missing => Err(
            String::from_str(
                "Unable to identify repository name. There is no last path component.",
            ),
        ),
    }
}

fn describe_time_error(error: TimeError) -> (text: &'static str)
    ensures
        text@ == time_error_text(error),
{
    match error {
        TimeError::OffsetOutOfRange => "the offset from UTC is out of range",
        TimeError::TimestampOutOfRange => "the timestamp is out of range",
    }
}

impl WalkStep {
    /// Whether the walk ends at this step.
    pub fn ends_walk(&self) -> (b: bool)
        ensures
            b == step_fails(self@),
    {
        match self {
            WalkStep::Broken(_) => true,
            WalkStep::Unreadable(_) => true,
            WalkStep::Found(data) => match &data.message {
                None => true,
                Some(_) => normalize(data.seconds, data.offset_minutes).is_err(),
            },
        }
    }

    /// The commit of this step in the repository `repository_name` at `path`,
    /// or the message that ends the walk.
    pub fn outcome(&self, path: &str, repository_name: &str) -> (r: Result<Commit, String>)
        ensures
            commit_result_view(r) == step_outcome(path@, repository_name@, self@),
    {
        match self {
            WalkStep::Broken(cause) => Err(
                join4(
                    "Unable to walk along commit graph: \nPath: ",
                    path,
                    " \nError: ",
                    cause.as_str(),
                ),
            ),
            WalkStep::Unreadable(cause) => Err(
                join4(
                    "Unable to find a commit from revwalk in repository: \nPath: ",
                    path,
                    " \nError: ",
                    cause.as_str(),
                ),
            ),
            WalkStep::Found(data) => match &data.message {
                None => Err(join2("Unable to read commit message: \nPath: ", path)),
                Some(message) => match normalize(data.seconds, data.offset_minutes) {
                    Err(error) => Err(
                        join4(
                            "Unable to read commit time: \nPath: ",
                            path,
                            " \nError: ",
                            describe_time_error(error),
                        ),
                    ),
                    Ok(time) => Ok(
                        Commit {
                            id: data.id.clone(),
                            message: message.clone(),
                            author: data.author.clone(),
                            time,
                            repository_name: String::from_str(repository_name),
                        },
                    ),
                },
            },
        }
    }
}

/// The commits of a walk in order, or the message of its first failing step.
pub fn walk_commits(path: &str, repository_name: &str, steps: &Vec<WalkStep>) -> (r: Result<
    Vec<Commit>,
    String,
>)
    ensures
        commits_result_view(r) == steps_outcome(path@, repository_name@, views(steps@)),
{
    let mut commits: Vec<Commit> = Vec::new();
    let mut i: usize = 0;
    proof {
        assert(views(commits@) == Seq::<CommitView>::empty());
        assert(views(steps@).take(0).len() == 0);
    }
    while i < steps.len()
        invariant
            i <= steps.len(),
            steps_outcome(path@, repository_name@, views(steps@).take(i as int)) == Ok::<
                Seq<CommitView>,
                Seq<char>,
            >(views(commits@)),
        decreases steps.len() - i,
    {
        proof {
            let seen = views(steps@).take(i + 1);
            assert(seen.drop_last() == views(steps@).take(i as int));
            assert(seen.last() == steps@[i as int]@);
        }
        match steps[i].outcome(path, repository_name) {
            Err(message) => {
                proof {
                    lemma_failed_prefix_decides(
                        path@,
                        repository_name@,
                        views(steps@),
                        i + 1,
                    );
                }
                return Err(message);
            },
            Ok(commit) => {
                proof {
                    assert(views(commits@.push(commit)) == views(commits@).push(commit@));
                }
                commits.push(commit);
            },
        }
        i += 1;
    }
    proof {
        assert(views(steps@).take(i as int) == views(steps@));
    }
    Ok(commits)
}

/// The commits of the repository `repository_name` at `path`, from what
/// reading it gave; or the one message that says why it has none to give.
pub fn collect_commits(path: &str, repository_name: &str, read: &RepositoryRead) -> (r: Result<
    Vec<Commit>,
    String,
>)
    ensures
        commits_result_view(r) == read_outcome(path@, repository_name@, read@),
{
    match read {
        RepositoryRead::WorkerFailed(cause) => Err(
            join2("Unable to join handle on update thread: ", cause.as_str()),
        ),
        RepositoryRead::OpenFailed(cause) => Err(
            join4("Unable to read repository: \nPath: ", path, " \nError: ", cause.as_str()),
        ),
        RepositoryRead::RevwalkFailed(cause) => Err(
            join4(
                "Unable to read commits of repository: \nPath: ",
                path,
                " \nError: ",
                cause.as_str(),
            ),
        ),
        RepositoryRead::Walked { sorting, head, steps } => match (sorting, head) {
            (None, None) => walk_commits(path, repository_name, steps),
            (Some(first), Some(second)) => Err(
                join6(
                    "Was unable to set sorting and append head to revwalk. \nPath: ",
                    path,
                    " \nError Sorting: ",
                    first.as_str(),
                    " \nError Head: ",
                    second.as_str(),
                ),
            ),
            (Some(cause), None) => Err(
                join4("Was unable to set sorting: \nPath: ", path, " \nError: ", cause.as_str()),
            ),
            (None, Some(cause)) => Err(
                join4("Was unable to append head: \nPath: ", path, " \nError: ", cause.as_str()),
            ),
        },
    }
}

} // verus!
