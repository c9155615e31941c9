//! A whole cycle, with the root folder and the store that it runs against.
//!
//! The cycle itself sees one answer at a time. Here the other side is
//! written down: a root folder is a sequence of entries, each with what
//! reading it gives; the store keeps its word. From this follows what a whole
//! cycle comes to, and that a second cycle over the same folder inserts
//! nothing.

use crate::commit::{summary_of, CommitEventView, CommitView, CompressedEventView, TimeRange};
use crate::cycle::{
    lemma_run_in_two, moved, next, repository_failed, run, started, CycleEventView,
    CycleStateView, CycleView, DirectoryEntryView,
};
use crate::dedup::{existing_filter, new_events};
use crate::query::{
    lemma_whole_stream, query_outcome, range_filter, range_filter_accepts, StoreReadView,
    StreamItemView,
};
use crate::store::{answer, held_ids, ingest, ingest_all, lemma_second_run_adds_nothing};
use crate::walker::{name_outcome, read_outcome, RepositoryReadView};
use vstd::prelude::*;

verus! {

/// One entry of the root folder, with what reading it as a repository gives.
pub struct FolderEntry {
    pub entry: DirectoryEntryView,
    pub read: RepositoryReadView,
}

/// What an entry comes to: nothing if it is no directory, else the commits
/// of its repository or the message that says why it has none.
pub open spec fn entry_outcome(item: FolderEntry) -> Option<Result<Seq<CommitView>, Seq<char>>> {
    if !item.entry.is_dir {
        None
    } else {
        match name_outcome(item.entry.name) {
            Err(message) => Some(Err(message)),
            Ok(repository_name) => Some(
                read_outcome(item.entry.path, repository_name, item.read),
            ),
        }
    }
}

/// The store after a cycle has dealt with one entry.
pub open spec fn store_after_entry(store: Seq<CommitEventView>, item: FolderEntry) -> Seq<
    CommitEventView,
> {
    match entry_outcome(item) {
        Some(Ok(commits)) => ingest(store, commits),
        _ => store,
    }
}

/// The store after a cycle has dealt with the entries, first to last.
pub open spec fn store_after(store: Seq<CommitEventView>, items: Seq<FolderEntry>) -> Seq<
    CommitEventView,
>
    decreases items.len(),
{
    if items.len() == 0 {
        store
    } else {
        store_after(store_after_entry(store, items.first()), items.drop_first())
    }
}

/// The failures that the entries cause, first to last.
pub open spec fn failures(items: Seq<FolderEntry>) -> Seq<Seq<char>>
    decreases items.len(),
{
    if items.len() == 0 {
        Seq::empty()
    } else {
        match entry_outcome(items.first()) {
            Some(Err(message)) => seq![message] + failures(items.drop_first()),
            _ => failures(items.drop_first()),
        }
    }
}

/// The commits that the entries offer, one sequence for each repository that
/// could be read, first to last.
pub open spec fn offers(items: Seq<FolderEntry>) -> Seq<Seq<CommitView>>
    decreases items.len(),
{
    if items.len() == 0 {
        Seq::empty()
    } else {
        match entry_outcome(items.first()) {
            Some(Ok(commits)) => seq![commits] + offers(items.drop_first()),
            _ => offers(items.drop_first()),
        }
    }
}

/// What the caller hands to a scanning cycle over one entry, when the store
/// holds `store`: the entry; for a directory with a name, its read; for a
/// read that succeeds, the store's answer; and, where something is new, the
/// word that it was inserted.
pub open spec fn entry_events(store: Seq<CommitEventView>, item: FolderEntry) -> Seq<
    CycleEventView,
> {
    let entry = CycleEventView::Entry(item.entry);
    let read = CycleEventView::Read(item.read);
    match entry_outcome(item) {
        None => seq![entry],
        Some(Err(message)) => if name_outcome(item.entry.name) is Err {
            seq![entry]
        } else {
            seq![entry, read]
        },
        Some(Ok(commits)) => {
            let filter = existing_filter(commits);
            if new_events(commits, held_ids(store, filter)).len() == 0 {
                seq![entry, read, answer(store, filter)]
            } else {
                seq![entry, read, answer(store, filter), CycleEventView::Inserted]
            }
        },
    }
}

/// What the caller hands to a scanning cycle over the entries, first to
/// last, when the store holds `store` at the start.
pub open spec fn folder_events(store: Seq<CommitEventView>, items: Seq<FolderEntry>) -> Seq<
    CycleEventView,
>
    decreases items.len(),
{
    if items.len() == 0 {
        Seq::empty()
    } else {
        entry_events(store, items.first()) + folder_events(
            store_after_entry(store, items.first()),
            items.drop_first(),
        )
    }
}

/// What the store streams for a range of time: the events of the git plugin
/// whose timing meets the range, in the store's order.
pub open spec fn streamed(store: Seq<CommitEventView>, range: TimeRange) -> StoreReadView {
    StoreReadView::Streamed(
        store.filter(|event: CommitEventView| range_filter_accepts(range_filter(range), event))
            .map_values(|event: CommitEventView| StreamItemView::Event(event)),
    )
}

/// Running over one more event is taking one more step.
pub proof fn lemma_run_one_more(
    cycle: CycleView,
    events: Seq<CycleEventView>,
    event: CycleEventView,
)
    ensures
        run(cycle, events.push(event)) == next(run(cycle, events), event),
{
    let one = seq![event];
    assert(events.push(event) == events + one);
    lemma_run_in_two(cycle, events, one);
    let reached = run(cycle, events);
    assert(one.first() == event);
    assert(one.drop_first().len() == 0);
    assert(run(next(reached, one.first()), one.drop_first()) == next(reached, event));
}

/// A scanning cycle that is handed what belongs to one entry is scanning
/// again afterwards, and has noted the entry's failure if it has one, and
/// nothing else.
pub proof fn lemma_cycle_over_entry(
    cycle: CycleView,
    store: Seq<CommitEventView>,
    item: FolderEntry,
)
    requires
        cycle.state is Scanning,
    ensures
        run(cycle, entry_events(store, item)) == (match entry_outcome(item) {
            Some(Err(message)) => repository_failed(cycle, message),
            _ => cycle,
        }),
{
    let entry = CycleEventView::Entry(item.entry);
    let read = CycleEventView::Read(item.read);
    let none = Seq::<CycleEventView>::empty();
    assert(run(cycle, none) == cycle);
    lemma_run_one_more(cycle, none, entry);
    assert(none.push(entry) == seq![entry]);
    match entry_outcome(item) {
        None => {},
        Some(Err(message)) => {
            if name_outcome(item.entry.name) is Ok {
                lemma_run_one_more(cycle, seq![entry], read);
                assert(seq![entry].push(read) == seq![entry, read]);
            }
        },
        Some(Ok(commits)) => {
            let filter = existing_filter(commits);
            let asked = answer(store, filter);
            lemma_run_one_more(cycle, seq![entry], read);
            assert(seq![entry].push(read) == seq![entry, read]);
            lemma_run_one_more(cycle, seq![entry, read], asked);
            assert(seq![entry, read].push(asked) == seq![entry, read, asked]);
            if new_events(commits, held_ids(store, filter)).len() != 0 {
                lemma_run_one_more(cycle, seq![entry, read, asked], CycleEventView::Inserted);
                assert(seq![entry, read, asked].push(CycleEventView::Inserted) == seq![
                    entry,
                    read,
                    asked,
                    CycleEventView::Inserted,
                ]);
            }
        },
    }
}

/// A scanning cycle that is handed what belongs to the entries of a folder
/// is scanning again afterwards, and has noted the failures of the entries,
/// first to last: one for each directory that could not be read, none for
/// anything else.
pub proof fn lemma_cycle_over_folder(
    cycle: CycleView,
    store: Seq<CommitEventView>,
    items: Seq<FolderEntry>,
)
    requires
        cycle.state is Scanning,
    ensures
        run(cycle, folder_events(store, items)) == (CycleView {
            state: CycleStateView::Scanning,
            errors: cycle.errors + failures(items),
        }),
    decreases items.len(),
{
    if items.len() == 0 {
        assert(cycle.errors + failures(items) == cycle.errors);
    } else {
        let first = items.first();
        let rest = items.drop_first();
        let reached = run(cycle, entry_events(store, first));
        lemma_cycle_over_entry(cycle, store, first);
        lemma_run_in_two(
            cycle,
            entry_events(store, first),
            folder_events(store_after_entry(store, first), rest),
        );
        lemma_cycle_over_folder(reached, store_after_entry(store, first), rest);
        match entry_outcome(first) {
            Some(Err(message)) => {
                assert(cycle.errors.push(message) + failures(rest) == cycle.errors + (
                seq![message] + failures(rest)));
            },
            _ => {},
        }
    }
}

/// A whole cycle over a folder that can be read: the cycle finishes, and
/// reports the failures of its entries and nothing else.
pub proof fn lemma_whole_cycle(
    folder: Seq<char>,
    store: Seq<CommitEventView>,
    items: Seq<FolderEntry>,
)
    ensures
        run(
            started(folder),
            seq![CycleEventView::FolderOpened] + folder_events(store, items) + seq![
                CycleEventView::NoMoreEntries,
            ],
        ) == (CycleView { state: CycleStateView::Finished, errors: failures(items) }),
{
    let opened = seq![CycleEventView::FolderOpened];
    let closing = seq![CycleEventView::NoMoreEntries];
    let scanning = moved(started(folder), CycleStateView::Scanning);
    lemma_run_one_more(started(folder), Seq::empty(), CycleEventView::FolderOpened);
    assert(Seq::<CycleEventView>::empty().push(CycleEventView::FolderOpened) == opened);
    lemma_run_in_two(started(folder), opened, folder_events(store, items));
    lemma_cycle_over_folder(scanning, store, items);
    lemma_run_in_two(started(folder), opened + folder_events(store, items), closing);
    let scanned = run(scanning, folder_events(store, items));
    lemma_run_one_more(scanned, Seq::empty(), CycleEventView::NoMoreEntries);
    assert(Seq::<CycleEventView>::empty().push(CycleEventView::NoMoreEntries) == closing);
    assert(scanning.errors + failures(items) == failures(items));
}

/// What a cycle leaves in the store is what dealing with the commits of the
/// readable repositories leaves, one repository after the other.
pub proof fn lemma_store_after_cycle(store: Seq<CommitEventView>, items: Seq<FolderEntry>)
    ensures
        store_after(store, items) == ingest_all(store, offers(items)),
    decreases items.len(),
{
    if items.len() > 0 {
        let rest = items.drop_first();
        lemma_store_after_cycle(store_after_entry(store, items.first()), rest);
        match entry_outcome(items.first()) {
            Some(Ok(commits)) => {
                let all = seq![commits] + offers(rest);
                assert(all.first() == commits);
                assert(all.drop_first() == offers(rest));
            },
            _ => {},
        }
    }
}

/// A second cycle inserts nothing. After a cycle over a folder, a cycle over
/// the same folder leaves the store as it found it, and the store is never
/// told to insert.
pub proof fn lemma_second_cycle_inserts_nothing(
    store: Seq<CommitEventView>,
    items: Seq<FolderEntry>,
)
    ensures
        store_after(store_after(store, items), items) == store_after(store, items),
        forall|i: int|
            0 <= i < folder_events(store_after(store, items), items).len() ==> folder_events(
                store_after(store, items),
                items,
            )[i] != CycleEventView::Inserted,
{
    let once = store_after(store, items);
    lemma_store_after_cycle(store, items);
    lemma_store_after_cycle(once, items);
    lemma_second_run_adds_nothing(store, offers(items));
    lemma_covered_folder_has_no_insert(once, items);
}

/// Where the store already holds an event for every commit that a folder
/// offers, a cycle over the folder never tells the store to insert.
pub proof fn lemma_covered_folder_has_no_insert(
    store: Seq<CommitEventView>,
    items: Seq<FolderEntry>,
)
    requires
        forall|i: int|
            0 <= i < offers(items).len() ==> new_events(
                #[trigger] offers(items)[i],
                held_ids(store, existing_filter(offers(items)[i])),
            ).len() == 0,
    ensures
        store_after(store, items) == store,
        forall|i: int|
            0 <= i < folder_events(store, items).len() ==> folder_events(store, items)[i]
                != CycleEventView::Inserted,
    decreases items.len(),
{
    if items.len() > 0 {
        let first = items.first();
        let rest = items.drop_first();
        match entry_outcome(first) {
            Some(Ok(commits)) => {
                let all = seq![commits] + offers(rest);
                assert(offers(items)[0] == commits);
                assert(ingest(store, commits) =~= store);
                assert forall|i: int| 0 <= i < offers(rest).len() implies new_events(
                    #[trigger] offers(rest)[i],
                    held_ids(store, existing_filter(offers(rest)[i])),
                ).len() == 0 by {
                    assert(offers(items)[i + 1] == offers(rest)[i]);
                }
            },
            _ => {},
        }
        assert(store_after_entry(store, first) == store);
        lemma_covered_folder_has_no_insert(store, rest);
        let head = entry_events(store, first);
        let tail = folder_events(store, rest);
        assert forall|i: int| 0 <= i < (head + tail).len() implies (head + tail)[i]
            != CycleEventView::Inserted by {
            if i >= head.len() {
                assert((head + tail)[i] == tail[i - head.len()]);
            }
        }
    }
}

/// A query against a store that keeps its word gives the summaries of the
/// git plugin's events in the range, in the store's order; each is titled
/// with the name of its repository.
pub proof fn lemma_query_of_store(store: Seq<CommitEventView>, range: TimeRange)
    ensures
        query_outcome(streamed(store, range)) == Ok::<Seq<CompressedEventView>, Seq<char>>(
            store.filter(
                |event: CommitEventView| range_filter_accepts(range_filter(range), event),
            ).map_values(|event: CommitEventView| summary_of(event)),
        ),
{
    let held = store.filter(
        |event: CommitEventView| range_filter_accepts(range_filter(range), event),
    );
    let items = held.map_values(|event: CommitEventView| StreamItemView::Event(event));
    lemma_whole_stream(items);
    let given = query_outcome(streamed(store, range))->Ok_0;
    assert(given =~= held.map_values(|event: CommitEventView| summary_of(event)));
}

} // verus!
