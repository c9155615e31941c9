use timeline_plugin_git::commit::{
    Commit, CommitEvent, DatabaseCommit, SourceTag, Timing,
};
use timeline_plugin_git::dedup::{
    events_to_insert, existing_commits_filter, select_new_events, IdFilter, QueryOutcome,
};
use timeline_plugin_git::time::UtcInstant;

fn commit(id: &str, seconds: i64) -> Commit {
    Commit {
        id: id.to_string(),
        message: format!("message of {}", id),
        author: "Ada".to_string(),
        time: UtcInstant { millis: seconds * 1000 },
        repository_name: "demo".to_string(),
    }
}

fn event(id: &str, seconds: i64) -> CommitEvent {
    CommitEvent {
        timing: Timing::Instant(UtcInstant { millis: seconds * 1000 }),
        id: id.to_string(),
        plugin: SourceTag { name: "timeline_plugin_git".to_string() },
        event: DatabaseCommit {
            message: format!("message of {}", id),
            author: "Ada".to_string(),
            repository_name: "demo".to_string(),
        },
    }
}

#[test]
fn filter_asks_for_the_candidate_ids_of_the_git_plugin() {
    let commits = vec![commit("A", 1), commit("B", 2), commit("C", 3)];
    assert_eq!(
        existing_commits_filter(&commits),
        IdFilter {
            plugin: SourceTag { name: "timeline_plugin_git".to_string() },
            ids: vec!["A".to_string(), "B".to_string(), "C".to_string()],
        }
    );
}

#[test]
fn filter_accepts_own_events_with_a_candidate_id() {
    let filter = existing_commits_filter(&vec![commit("A", 1), commit("B", 2)]);
    assert!(filter.accepts(&event("A", 1)));
    assert!(filter.accepts(&event("B", 7)));
    assert!(!filter.accepts(&event("C", 1)));
    let mut foreign = event("A", 1);
    foreign.plugin = SourceTag { name: "timeline_plugin_media".to_string() };
    assert!(!filter.accepts(&foreign));
}

#[test]
fn only_the_commit_not_yet_stored_is_inserted() {
    let commits = vec![commit("A", 1), commit("B", 2), commit("C", 3)];
    let stored = vec!["A".to_string(), "B".to_string()];
    assert_eq!(select_new_events(&commits, &stored), vec![event("C", 3)]);
}

#[test]
fn new_events_keep_the_order_of_the_commits() {
    let commits = vec![commit("D", 4), commit("A", 1), commit("C", 3), commit("B", 2)];
    let stored = vec!["A".to_string()];
    assert_eq!(
        select_new_events(&commits, &stored),
        vec![event("D", 4), event("C", 3), event("B", 2)]
    );
}

#[test]
fn event_carries_the_commit() {
    let c = Commit {
        id: "9fceb02".to_string(),
        message: "Fix the walker".to_string(),
        author: "Grace <grace@example.org>".to_string(),
        time: UtcInstant { millis: 1_700_000_000_000 },
        repository_name: "timeline".to_string(),
    };
    assert_eq!(
        c.to_event(),
        CommitEvent {
            timing: Timing::Instant(UtcInstant { millis: 1_700_000_000_000 }),
            id: "9fceb02".to_string(),
            plugin: SourceTag { name: "timeline_plugin_git".to_string() },
            event: DatabaseCommit {
                message: "Fix the walker".to_string(),
                author: "Grace <grace@example.org>".to_string(),
                repository_name: "timeline".to_string(),
            },
        }
    );
}

#[test]
fn nothing_new_means_no_write() {
    let commits = vec![commit("A", 1), commit("B", 2)];
    let outcome = QueryOutcome::Found(vec!["B".to_string(), "A".to_string(), "Z".to_string()]);
    assert_eq!(events_to_insert(&commits, &outcome), Ok(None));
    assert_eq!(events_to_insert(&vec![], &QueryOutcome::Found(vec![])), Ok(None));
}

#[test]
fn something_new_means_one_batch() {
    let commits = vec![commit("A", 1), commit("B", 2), commit("C", 3)];
    let outcome = QueryOutcome::Found(vec![]);
    assert_eq!(
        events_to_insert(&commits, &outcome),
        Ok(Some(vec![event("A", 1), event("B", 2), event("C", 3)]))
    );
}

#[test]
fn second_run_inserts_nothing() {
    let commits = vec![commit("A", 1), commit("B", 2), commit("C", 3)];
    let mut store: Vec<CommitEvent> = vec![event("B", 2)];
    let filter = existing_commits_filter(&commits);
    let held: Vec<String> =
        store.iter().filter(|e| filter.accepts(e)).map(|e| e.id.clone()).collect();
    let first = select_new_events(&commits, &held);
    assert_eq!(first, vec![event("A", 1), event("C", 3)]);
    store.extend(first);
    let held: Vec<String> =
        store.iter().filter(|e| filter.accepts(e)).map(|e| e.id.clone()).collect();
    assert_eq!(select_new_events(&commits, &held), vec![]);
    assert_eq!(events_to_insert(&commits, &QueryOutcome::Found(held)), Ok(None));
}

#[test]
fn find_failure_is_reported() {
    let commits = vec![commit("A", 1)];
    assert_eq!(
        events_to_insert(&commits, &QueryOutcome::FindFailed("connection reset".to_string())),
        Err("Error loading commit ids from database: connection reset".to_string())
    );
}

#[test]
fn collect_failure_is_reported() {
    let commits = vec![commit("A", 1)];
    assert_eq!(
        events_to_insert(&commits, &QueryOutcome::CollectFailed("cursor died".to_string())),
        Err("Unable to collect all already existing commits: cursor died".to_string())
    );
}

#[test]
fn git_tag_names_the_plugin() {
    assert_eq!(SourceTag::git(), SourceTag { name: "timeline_plugin_git".to_string() });
    assert!(SourceTag::git().same_as(&SourceTag::git().duplicate()));
    assert!(!SourceTag::git().same_as(&SourceTag { name: "other".to_string() }));
}
