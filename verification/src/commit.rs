//! The records that the pipeline produces: a commit as read from a
//! repository, its payload, the event that is stored for it and the summary
//! that a query hands out.

use crate::time::UtcInstant;
use vstd::prelude::*;
use vstd::string::*;

verus! {

/// A span of time between two instants, both included.
#[derive(Clone, Copy, Debug, PartialEq, Eq, Structural)]
pub struct TimeRange {
    pub start: UtcInstant,
    pub end: UtcInstant,
}

/// When an event took place: at one instant or over a span.
#[derive(Clone, Copy, Debug, PartialEq, Eq, Structural)]
pub enum Timing {
    Instant(UtcInstant),
    Range(TimeRange),
}

/// Whether `timing` has an instant in common with `range`.
pub open spec fn timing_intersects(timing: Timing, range: TimeRange) -> bool {
    match timing {
        Timing::Instant(at) => range.start.millis <= at.millis <= range.end.millis,
        Timing::Range(span) => span.start.millis <= range.end.millis && range.start.millis
            <= span.end.millis,
    }
}

impl Timing {
    /// Whether this timing has an instant in common with `range`.
    pub fn intersects(&self, range: &TimeRange) -> (b: bool)
        ensures
            b == timing_intersects(*self, *range),
    {
        match self {
            Timing::Instant(at) => range.start.millis <= at.millis && at.millis
                <= range.end.millis,
            Timing::Range(span) => span.start.millis <= range.end.millis && range.start.millis
                <= span.end.millis,
        }
    }
}

/// The name under which the git plugin's events are stored.
pub open spec fn git_plugin_name() -> Seq<char> {
    "timeline_plugin_git"@
}

/// The plugin that an event comes from.
#[derive(Clone, Debug, PartialEq, Eq)]
pub struct SourceTag {
    pub name: String,
}

impl View for SourceTag {
    type V = Seq<char>;

    open spec fn view(&self) -> Seq<char> {
        self.name@
    }
}

impl SourceTag {
    /// The tag of the git plugin.
    pub fn git() -> (tag: SourceTag)
        ensures
            tag@ == git_plugin_name(),
    {
        SourceTag { name: String::from_str("timeline_plugin_git") }
    }

    /// Whether the two tags name the same plugin.
    pub fn same_as(&self, other: &SourceTag) -> (b: bool)
        ensures
            b == (self@ == other@),
    {
        self.name == other.name
    }

    /// A tag of the same plugin.
    pub fn duplicate(&self) -> (tag: SourceTag)
        ensures
            tag@ == self@,
    {
        SourceTag { name: self.name.clone() }
    }
}

/// A commit as it was read from a repository.
#[derive(Clone, Debug, PartialEq, Eq)]
pub struct Commit {
    /// The commit's hash: what tells it from every other commit.
    pub id: String,
    pub message: String,
    pub author: String,
    pub time: UtcInstant,
    /// The name of the directory that holds the repository.
    pub repository_name: String,
}

/// What a [`Commit`] holds, with its texts as sequences of characters.
pub struct CommitView {
    pub id: Seq<char>,
    pub message: Seq<char>,
    pub author: Seq<char>,
    pub time: UtcInstant,
    pub repository_name: Seq<char>,
}

impl View for Commit {
    type V = CommitView;

    open spec fn view(&self) -> CommitView {
        CommitView {
            id: self.id@,
            message: self.message@,
            author: self.author@,
            time: self.time,
            repository_name: self.repository_name@,
        }
    }
}

/// What is stored and shown of a commit.
#[derive(Clone, Debug, PartialEq, Eq)]
pub struct DatabaseCommit {
    pub message: String,
    pub author: String,
    pub repository_name: String,
}

/// What a [`DatabaseCommit`] holds, with its texts as sequences of characters.
pub struct DatabaseCommitView {
    pub message: Seq<char>,
    pub author: Seq<char>,
    pub repository_name: Seq<char>,
}

impl View for DatabaseCommit {
    type V = DatabaseCommitView;

    open spec fn view(&self) -> DatabaseCommitView {
        DatabaseCommitView {
            message: self.message@,
            author: self.author@,
            repository_name: self.repository_name@,
        }
    }
}

impl DatabaseCommit {
    /// A payload with the same texts.
    pub fn duplicate(&self) -> (copy: DatabaseCommit)
        ensures
            copy@ == self@,
    {
        DatabaseCommit {
            message: self.message.clone(),
            author: self.author.clone(),
            repository_name: self.repository_name.clone(),
        }
    }
}

/// The event that is stored for one commit.
#[derive(Clone, Debug, PartialEq, Eq)]
pub struct CommitEvent {
    pub timing: Timing,
    /// The id of the commit.
    pub id: String,
    pub plugin: SourceTag,
    pub event: DatabaseCommit,
}

/// What a [`CommitEvent`] holds, with its texts as sequences of characters.
pub struct CommitEventView {
    pub timing: Timing,
    pub id: Seq<char>,
    pub plugin: Seq<char>,
    pub event: DatabaseCommitView,
}

impl View for CommitEvent {
    type V = CommitEventView;

    open spec fn view(&self) -> CommitEventView {
        CommitEventView {
            timing: self.timing,
            id: self.id@,
            plugin: self.plugin@,
            event: self.event@,
        }
    }
}

/// The event that stands for `commit` in the store: at the commit's instant,
/// under the commit's id, tagged as the git plugin's.
pub open spec fn event_of(commit: CommitView) -> CommitEventView {
    CommitEventView {
        timing: Timing::Instant(commit.time),
        id: commit.id,
        plugin: git_plugin_name(),
        event: DatabaseCommitView {
            message: commit.message,
            author: commit.author,
            repository_name: commit.repository_name,
        },
    }
}

impl Commit {
    /// The event to store for this commit.
    pub fn to_event(&self) -> (event: CommitEvent)
        ensures
            event@ == event_of(self@),
    {
        CommitEvent {
            timing: Timing::Instant(self.time),
            id: self.id.clone(),
            plugin: SourceTag::git(),
            event: DatabaseCommit {
                author: self.author.clone(),
                message: self.message.clone(),
                repository_name: self.repository_name.clone(),
            },
        }
    }
}

/// What a query hands out for one stored event.
#[derive(Clone, Debug, PartialEq, Eq)]
pub struct CompressedEvent {
    pub title: String,
    pub time: Timing,
    pub data: DatabaseCommit,
}

/// What a [`CompressedEvent`] holds, with its texts as sequences of characters.
pub struct CompressedEventView {
    pub title: Seq<char>,
    pub time: Timing,
    pub data: DatabaseCommitView,
}

impl View for CompressedEvent {
    type V = CompressedEventView;

    open spec fn view(&self) -> CompressedEventView {
        CompressedEventView { title: self.title@, time: self.time, data: self.data@ }
    }
}

/// The summary of a stored event: titled with the repository's name, at the
/// event's time, carrying the event's payload.
pub open spec fn summary_of(event: CommitEventView) -> CompressedEventView {
    CompressedEventView {
        title: event.event.repository_name,
        time: event.timing,
        data: event.event,
    }
}

impl CommitEvent {
    /// The summary of this event.
    pub fn summary(&self) -> (summary: CompressedEvent)
        ensures
            summary@ == summary_of(self@),
    {
        CompressedEvent {
            title: self.event.repository_name.clone(),
            time: self.timing,
            data: self.event.duplicate(),
        }
    }
}

} // verus!
