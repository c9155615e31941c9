//! The event store as the pipeline relies on it, and what follows for the
//! pipeline.
//!
//! The store is somebody else's. What deduplication relies on is little:
//! asked with a filter, the store names the events that the filter accepts;
//! given events, it holds them after the ones it held. This module writes
//! that down and proves from it what deduplication is for: what is stored
//! once is not stored again.

use crate::commit::{event_of, git_plugin_name, CommitEventView, CommitView};
use crate::cycle::{
    moved, next, pending, CycleActionView, CycleEventView, CycleStateView, CycleView,
};
use crate::dedup::{
    candidate_ids, existing_filter, id_filter_accepts, lemma_missing_membership,
    lemma_nothing_missing, missing, new_events, IdFilterView, QueryOutcomeView,
};
use vstd::prelude::*;

verus! {

/// The ids of the stored events that the filter accepts, in the store's
/// order.
pub open spec fn held_ids(store: Seq<CommitEventView>, filter: IdFilterView) -> Seq<Seq<char>> {
    store.filter(|event: CommitEventView| id_filter_accepts(filter, event)).map_values(
        |event: CommitEventView| event.id,
    )
}

/// The store after `commits` have been dealt with: the events of the
/// commits that were new follow what was held.
pub open spec fn ingest(store: Seq<CommitEventView>, commits: Seq<CommitView>) -> Seq<
    CommitEventView,
> {
    store + new_events(commits, held_ids(store, existing_filter(commits)))
}

/// The store after dealing with the commits of several
/// repositories, one repository after the other.
pub open spec fn ingest_all(store: Seq<CommitEventView>, repositories: Seq<Seq<CommitView>>) -> Seq<
    CommitEventView,
>
    decreases repositories.len(),
{
    if repositories.len() == 0 {
        store
    } else {
        ingest_all(ingest(store, repositories.first()), repositories.drop_first())
    }
}

/// Whether the store holds an event of the git plugin for every one of
/// `commits`.
pub open spec fn covers(store: Seq<CommitEventView>, commits: Seq<CommitView>) -> bool {
    forall|k: int|
        0 <= k < commits.len() ==> held_ids(store, existing_filter(commits)).contains(
            #[trigger] commits[k].id,
        )
}

/// Whether no two events of the git plugin in the store have the same id.
pub open spec fn git_ids_distinct(store: Seq<CommitEventView>) -> bool {
    forall|i: int, j: int|
        0 <= i < j < store.len() && (#[trigger] store[i]).plugin == git_plugin_name() && (
        #[trigger] store[j]).plugin == git_plugin_name() ==> store[i].id != store[j].id
}

/// Whether no two of the commits have the same id.
pub open spec fn ids_distinct(commits: Seq<CommitView>) -> bool {
    forall|i: int, j: int|
        0 <= i < j < commits.len() ==> (#[trigger] commits[i]).id != (#[trigger] commits[j]).id
}

/// What a store that keeps its word answers when it is asked with `filter`.
pub open spec fn answer(store: Seq<CommitEventView>, filter: IdFilterView) -> CycleEventView {
    CycleEventView::Queried(QueryOutcomeView::Found(held_ids(store, filter)))
}

/// An id is named by the store exactly if the store holds an event under it
/// that the filter accepts.
pub proof fn lemma_held_ids(store: Seq<CommitEventView>, filter: IdFilterView, id: Seq<char>)
    ensures
        held_ids(store, filter).contains(id) <==> exists|i: int|
            0 <= i < store.len() && id_filter_accepts(filter, #[trigger] store[i]) && store[i].id
                == id,
{
    let accepts = |event: CommitEventView| id_filter_accepts(filter, event);
    let accepted = store.filter(accepts);
    if held_ids(store, filter).contains(id) {
        let j = choose|j: int| 0 <= j < accepted.len() && held_ids(store, filter)[j] == id;
        store.lemma_filter_pred(accepts, j);
        assert(accepted.contains(accepted[j]));
        store.lemma_filter_contains_rev(accepts, accepted[j]);
        let i = choose|i: int| 0 <= i < store.len() && store[i] == accepted[j];
        assert(id_filter_accepts(filter, store[i]) && store[i].id == id);
    }
    if exists|i: int|
        0 <= i < store.len() && id_filter_accepts(filter, #[trigger] store[i]) && store[i].id
            == id {
        let i = choose|i: int|
            0 <= i < store.len() && id_filter_accepts(filter, #[trigger] store[i]) && store[i].id
                == id;
        store.lemma_filter_contains(accepts, i);
        let j = choose|j: int| 0 <= j < accepted.len() && accepted[j] == store[i];
        assert(held_ids(store, filter)[j] == id);
    }
}

/// What the store names does not get less when the store gets more.
pub proof fn lemma_held_ids_stay(
    store: Seq<CommitEventView>,
    more: Seq<CommitEventView>,
    filter: IdFilterView,
    id: Seq<char>,
)
    requires
        held_ids(store, filter).contains(id),
    ensures
        held_ids(store + more, filter).contains(id),
{
    lemma_held_ids(store, filter, id);
    let i = choose|i: int|
        0 <= i < store.len() && id_filter_accepts(filter, #[trigger] store[i]) && store[i].id
            == id;
    assert((store + more)[i] == store[i]);
    lemma_held_ids(store + more, filter, id);
}

/// A store that covers some commits still covers them when it holds more.
pub proof fn lemma_covers_stays(
    store: Seq<CommitEventView>,
    more: Seq<CommitEventView>,
    commits: Seq<CommitView>,
)
    requires
        covers(store, commits),
    ensures
        covers(store + more, commits),
{
    assert forall|k: int| 0 <= k < commits.len() implies held_ids(
        store + more,
        existing_filter(commits),
    ).contains(#[trigger] commits[k].id) by {
        lemma_held_ids_stay(store, more, existing_filter(commits), commits[k].id);
    }
}

/// After some commits have been dealt with, the store holds an event for
/// every one of them.
pub proof fn lemma_ingest_covers(store: Seq<CommitEventView>, commits: Seq<CommitView>)
    ensures
        covers(ingest(store, commits), commits),
{
    let filter = existing_filter(commits);
    let present = held_ids(store, filter);
    let added = new_events(commits, present);
    assert forall|k: int| 0 <= k < commits.len() implies held_ids(
        ingest(store, commits),
        filter,
    ).contains(#[trigger] commits[k].id) by {
        let id = commits[k].id;
        if present.contains(id) {
            lemma_held_ids_stay(store, added, filter, id);
        } else {
            assert(commits.contains(commits[k]));
            lemma_missing_membership(commits, present, commits[k]);
            let j = choose|j: int|
                0 <= j < missing(commits, present).len() && missing(commits, present)[j]
                    == commits[k];
            assert(added[j] == event_of(commits[k]));
            assert(ingest(store, commits)[store.len() + j] == event_of(commits[k]));
            assert(candidate_ids(commits)[k] == id);
            assert(id_filter_accepts(filter, ingest(store, commits)[store.len() + j]));
            lemma_held_ids(ingest(store, commits), filter, id);
        }
    }
}

/// Where the store holds an event for every one of the commits, nothing is
/// added.
pub proof fn lemma_covered_adds_nothing(store: Seq<CommitEventView>, commits: Seq<CommitView>)
    requires
        covers(store, commits),
    ensures
        new_events(commits, held_ids(store, existing_filter(commits))).len() == 0,
        ingest(store, commits) == store,
{
    lemma_nothing_missing(commits, held_ids(store, existing_filter(commits)));
    assert(ingest(store, commits) =~= store);
}

/// Dealing with the same commits a second time inserts nothing.
pub proof fn lemma_second_ingest_adds_nothing(
    store: Seq<CommitEventView>,
    commits: Seq<CommitView>,
)
    ensures
        new_events(
            commits,
            held_ids(ingest(store, commits), existing_filter(commits)),
        ).len() == 0,
        ingest(ingest(store, commits), commits) == ingest(store, commits),
{
    lemma_ingest_covers(store, commits);
    lemma_covered_adds_nothing(ingest(store, commits), commits);
}

/// Dealing with repositories only adds to the store.
pub proof fn lemma_ingest_all_extends(
    store: Seq<CommitEventView>,
    repositories: Seq<Seq<CommitView>>,
)
    ensures
        store.len() <= ingest_all(store, repositories).len(),
        ingest_all(store, repositories) == store + ingest_all(store, repositories).skip(
            store.len() as int,
        ),
    decreases repositories.len(),
{
    if repositories.len() == 0 {
        assert(store =~= store + store.skip(store.len() as int));
    } else {
        let grown = ingest(store, repositories.first());
        lemma_ingest_all_extends(grown, repositories.drop_first());
        let all = ingest_all(store, repositories);
        assert(all =~= store + all.skip(store.len() as int));
    }
}

/// After the repositories have been dealt with, the store holds an event
/// for every commit of every one of them.
pub proof fn lemma_ingest_all_covers(
    store: Seq<CommitEventView>,
    repositories: Seq<Seq<CommitView>>,
    at: int,
)
    requires
        0 <= at < repositories.len(),
    ensures
        covers(ingest_all(store, repositories), repositories[at]),
    decreases repositories.len(),
{
    let grown = ingest(store, repositories.first());
    let rest = repositories.drop_first();
    if at == 0 {
        lemma_ingest_covers(store, repositories.first());
        lemma_ingest_all_extends(grown, rest);
        lemma_covers_stays(
            grown,
            ingest_all(grown, rest).skip(grown.len() as int),
            repositories.first(),
        );
    } else {
        assert(rest[at - 1] == repositories[at]);
        lemma_ingest_all_covers(grown, rest, at - 1);
    }
}

/// Where the store holds an event for every commit of every repository,
/// dealing with the repositories leaves the store as it is.
pub proof fn lemma_covered_repositories_add_nothing(
    store: Seq<CommitEventView>,
    repositories: Seq<Seq<CommitView>>,
)
    requires
        forall|i: int| 0 <= i < repositories.len() ==> covers(store, #[trigger] repositories[i]),
    ensures
        ingest_all(store, repositories) == store,
    decreases repositories.len(),
{
    if repositories.len() > 0 {
        assert(covers(store, repositories[0]));
        lemma_covered_adds_nothing(store, repositories.first());
        let rest = repositories.drop_first();
        assert forall|i: int| 0 <= i < rest.len() implies covers(store, #[trigger] rest[i]) by {
            assert(rest[i] == repositories[i + 1]);
        }
        lemma_covered_repositories_add_nothing(store, rest);
    }
}

/// Ingestion is idempotent: running it a second time over the same
/// repositories, with the store as the first run left it, inserts nothing.
pub proof fn lemma_second_run_adds_nothing(
    store: Seq<CommitEventView>,
    repositories: Seq<Seq<CommitView>>,
)
    ensures
        ingest_all(ingest_all(store, repositories), repositories) == ingest_all(
            store,
            repositories,
        ),
        forall|i: int|
            0 <= i < repositories.len() ==> new_events(
                #[trigger] repositories[i],
                held_ids(ingest_all(store, repositories), existing_filter(repositories[i])),
            ).len() == 0,
{
    let after = ingest_all(store, repositories);
    assert forall|i: int| 0 <= i < repositories.len() implies covers(
        after,
        #[trigger] repositories[i],
    ) by {
        lemma_ingest_all_covers(store, repositories, i);
    }
    lemma_covered_repositories_add_nothing(after, repositories);
    assert forall|i: int| 0 <= i < repositories.len() implies new_events(
        #[trigger] repositories[i],
        held_ids(after, existing_filter(repositories[i])),
    ).len() == 0 by {
        lemma_covered_adds_nothing(after, repositories[i]);
    }
}

/// An event is inserted for a commit exactly if the store holds no event of
/// the git plugin under the commit's id.
pub proof fn lemma_inserted_exactly_the_new(
    store: Seq<CommitEventView>,
    commits: Seq<CommitView>,
    commit: CommitView,
)
    requires
        commits.contains(commit),
    ensures
        new_events(commits, held_ids(store, existing_filter(commits))).contains(event_of(commit))
            <==> !(exists|i: int|
            0 <= i < store.len() && (#[trigger] store[i]).plugin == git_plugin_name()
                && store[i].id == commit.id),
{
    let filter = existing_filter(commits);
    let present = held_ids(store, filter);
    let added = new_events(commits, present);
    let k = choose|k: int| 0 <= k < commits.len() && commits[k] == commit;
    assert(candidate_ids(commits)[k] == commit.id);
    lemma_held_ids(store, filter, commit.id);
    if exists|i: int|
        0 <= i < store.len() && (#[trigger] store[i]).plugin == git_plugin_name() && store[i].id
            == commit.id {
        let i = choose|i: int|
            0 <= i < store.len() && (#[trigger] store[i]).plugin == git_plugin_name()
                && store[i].id == commit.id;
        assert(id_filter_accepts(filter, store[i]));
        assert(present.contains(commit.id));
        if added.contains(event_of(commit)) {
            let j = choose|j: int| 0 <= j < added.len() && added[j] == event_of(commit);
            let other = missing(commits, present)[j];
            assert(missing(commits, present).contains(other));
            lemma_missing_membership(commits, present, other);
            assert(event_of(other).id == other.id);
            assert(false);
        }
    } else {
        assert(!present.contains(commit.id));
        lemma_missing_membership(commits, present, commit);
        let j = choose|j: int|
            0 <= j < missing(commits, present).len() && missing(commits, present)[j] == commit;
        assert(added[j] == event_of(commit));
    }
}

/// Keeping the items that meet a condition keeps them apart.
pub proof fn lemma_filter_keeps_apart<A>(items: Seq<A>, keep: spec_fn(A) -> bool)
    requires
        items.no_duplicates(),
    ensures
        items.filter(keep).no_duplicates(),
    decreases items.len(),
{
    reveal(Seq::filter);
    if items.len() > 0 {
        let before = items.drop_last();
        lemma_filter_keeps_apart(before, keep);
        if keep(items.last()) {
            let kept = before.filter(keep);
            if kept.contains(items.last()) {
                before.lemma_filter_contains_rev(keep, items.last());
                let i = choose|i: int| 0 <= i < before.len() && before[i] == items.last();
                assert(items[i] == items[items.len() - 1]);
                assert(false);
            }
            assert forall|i: int, j: int|
                0 <= i < kept.push(items.last()).len() && 0 <= j < kept.push(items.last()).len()
                    && i != j implies kept.push(items.last())[i] != kept.push(
                items.last(),
            )[j] by {
                if i < kept.len() && j < kept.len() {
                } else if i < kept.len() {
                    assert(kept.contains(kept[i]));
                } else {
                    assert(kept.contains(kept[j]));
                }
            }
        }
    }
}

/// No id is ever stored twice: where the ids of the git plugin's events in
/// the store are distinct and so are the ids of the commits, they still are
/// after the commits have been dealt with.
pub proof fn lemma_ingest_keeps_ids_distinct(
    store: Seq<CommitEventView>,
    commits: Seq<CommitView>,
)
    requires
        git_ids_distinct(store),
        ids_distinct(commits),
    ensures
        git_ids_distinct(ingest(store, commits)),
{
    let filter = existing_filter(commits);
    let present = held_ids(store, filter);
    let new = missing(commits, present);
    let added = new_events(commits, present);
    let after = ingest(store, commits);
    assert(commits.no_duplicates());
    lemma_filter_keeps_apart(commits, |commit: CommitView| !present.contains(commit.id));
    assert forall|i: int, j: int|
        0 <= i < j < after.len() && (#[trigger] after[i]).plugin == git_plugin_name() && (
        #[trigger] after[j]).plugin == git_plugin_name() implies after[i].id != after[j].id by {
        if j < store.len() {
            assert(after[i] == store[i] && after[j] == store[j]);
        } else {
            let b = j - store.len();
            assert(after[j] == event_of(new[b]));
            assert(new.contains(new[b]));
            lemma_missing_membership(commits, present, new[b]);
            let kb = choose|k: int| 0 <= k < commits.len() && commits[k] == new[b];
            if i < store.len() {
                assert(after[i] == store[i]);
                if store[i].id == new[b].id {
                    assert(candidate_ids(commits)[kb] == new[b].id);
                    assert(id_filter_accepts(filter, store[i]));
                    lemma_held_ids(store, filter, new[b].id);
                    assert(false);
                }
            } else {
                let a = i - store.len();
                assert(after[i] == event_of(new[a]));
                assert(new.contains(new[a]));
                lemma_missing_membership(commits, present, new[a]);
                let ka = choose|k: int| 0 <= k < commits.len() && commits[k] == new[a];
                assert(new[a] != new[b]);
                if new[a].id == new[b].id {
                    assert(ka != kb);
                    if ka < kb {
                        assert(commits[ka].id != commits[kb].id);
                    } else {
                        assert(commits[kb].id != commits[ka].id);
                    }
                    assert(false);
                }
            }
        }
    }
}

/// The cycle, run against a store that keeps its word, does to the store
/// what `ingest` says, and is left scanning. The store is asked once, with
/// the filter for the commits' ids; it is written to once if something is
/// new, and not at all if nothing is.
pub proof fn lemma_cycle_ingests(
    cycle: CycleView,
    store: Seq<CommitEventView>,
    commits: Seq<CommitView>,
)
    requires
        cycle.state == (CycleStateView::Querying { commits }),
    ensures
        pending(cycle.state) == CycleActionView::Query(existing_filter(commits)),
        ({
            let answered = next(cycle, answer(store, existing_filter(commits)));
            let added = new_events(commits, held_ids(store, existing_filter(commits)));
            if added.len() == 0 {
                &&& answered == moved(cycle, CycleStateView::Scanning)
                &&& ingest(store, commits) == store
            } else {
                &&& pending(answered.state) == CycleActionView::Insert(added)
                &&& store + added == ingest(store, commits)
                &&& next(answered, CycleEventView::Inserted) == moved(
                    cycle,
                    CycleStateView::Scanning,
                )
            }
        }),
{
    let added = new_events(commits, held_ids(store, existing_filter(commits)));
    if added.len() == 0 {
        assert(ingest(store, commits) =~= store);
    }
}

} // verus!
