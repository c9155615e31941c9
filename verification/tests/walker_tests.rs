use timeline_plugin_git::commit::Commit;
use timeline_plugin_git::time::UtcInstant;
use timeline_plugin_git::walker::{
    collect_commits, repository_name, walk_commits, CommitData, EntryName, RepositoryRead,
    WalkStep,
};

fn found(id: &str, message: Option<&str>, seconds: i64, offset_minutes: i32) -> WalkStep {
    WalkStep::Found(CommitData {
        id: id.to_string(),
        message: message.map(|m| m.to_string()),
        author: "Ada <ada@example.org>".to_string(),
        seconds,
        offset_minutes,
    })
}

fn walked(steps: Vec<WalkStep>) -> RepositoryRead {
    RepositoryRead::Walked { sorting: None, head: None, steps }
}

#[test]
fn repository_name_is_the_directory_name() {
    assert_eq!(repository_name(&EntryName::Name("demo".to_string())), Ok("demo".to_string()));
}

#[test]
fn repository_name_needs_a_last_component() {
    assert_eq!(
        repository_name(&EntryName::Missing),
        Err("Unable to identify repository name. There is no last path component.".to_string())
    );
}

#[test]
fn repository_name_needs_displayable_text() {
    assert_eq!(
        repository_name(&EntryName::NotDisplayable),
        Err("Unable to read os-string to internal string.".to_string())
    );
}

#[test]
fn walk_gives_one_commit_per_step_in_order() {
    let read = walked(vec![
        found("a3", Some("third"), 300, 0),
        found("a2", Some(""), 200, -60),
        found("a1", Some("first"), 100, 120),
    ]);
    let commits = collect_commits("/repos/demo", "demo", &read).unwrap();
    assert_eq!(
        commits,
        vec![
            Commit {
                id: "a3".to_string(),
                message: "third".to_string(),
                author: "Ada <ada@example.org>".to_string(),
                time: UtcInstant { millis: 300_000 },
                repository_name: "demo".to_string(),
            },
            Commit {
                id: "a2".to_string(),
                message: "".to_string(),
                author: "Ada <ada@example.org>".to_string(),
                time: UtcInstant { millis: 200_000 },
                repository_name: "demo".to_string(),
            },
            Commit {
                id: "a1".to_string(),
                message: "first".to_string(),
                author: "Ada <ada@example.org>".to_string(),
                time: UtcInstant { millis: 100_000 },
                repository_name: "demo".to_string(),
            },
        ]
    );
}

#[test]
fn empty_walk_gives_no_commits() {
    assert_eq!(collect_commits("/repos/demo", "demo", &walked(vec![])), Ok(vec![]));
    assert_eq!(walk_commits("/repos/demo", "demo", &vec![]), Ok(vec![]));
}

#[test]
fn worker_failure_is_reported() {
    let read = RepositoryRead::WorkerFailed("Any { .. }".to_string());
    assert_eq!(
        collect_commits("/repos/demo", "demo", &read),
        Err("Unable to join handle on update thread: Any { .. }".to_string())
    );
}

#[test]
fn open_failure_names_path_and_cause() {
    let read = RepositoryRead::OpenFailed("not a repository".to_string());
    assert_eq!(
        collect_commits("/repos/broken", "broken", &read),
        Err("Unable to read repository: \nPath: /repos/broken \nError: not a repository"
            .to_string())
    );
}

#[test]
fn revwalk_failure_names_path_and_cause() {
    let read = RepositoryRead::RevwalkFailed("out of memory".to_string());
    assert_eq!(
        collect_commits("/repos/demo", "demo", &read),
        Err("Unable to read commits of repository: \nPath: /repos/demo \nError: out of memory"
            .to_string())
    );
}

#[test]
fn sorting_and_head_failure_names_both() {
    let read = RepositoryRead::Walked {
        sorting: Some("bad sort".to_string()),
        head: Some("no head".to_string()),
        steps: vec![found("a1", Some("first"), 100, 0)],
    };
    assert_eq!(
        collect_commits("/repos/demo", "demo", &read),
        Err("Was unable to set sorting and append head to revwalk. \nPath: /repos/demo \nError Sorting: bad sort \nError Head: no head".to_string())
    );
}

#[test]
fn sorting_failure_alone() {
    let read = RepositoryRead::Walked {
        sorting: Some("bad sort".to_string()),
        head: None,
        steps: vec![found("a1", Some("first"), 100, 0)],
    };
    assert_eq!(
        collect_commits("/repos/demo", "demo", &read),
        Err("Was unable to set sorting: \nPath: /repos/demo \nError: bad sort".to_string())
    );
}

#[test]
fn head_failure_alone() {
    let read = RepositoryRead::Walked {
        sorting: None,
        head: Some("reference 'refs/heads/main' not found".to_string()),
        steps: vec![],
    };
    assert_eq!(
        collect_commits("/repos/empty", "empty", &read),
        Err("Was unable to append head: \nPath: /repos/empty \nError: reference 'refs/heads/main' not found".to_string())
    );
}

#[test]
fn broken_step_ends_the_walk() {
    let read = walked(vec![
        found("a2", Some("second"), 200, 0),
        WalkStep::Broken("object missing".to_string()),
        found("a1", Some("first"), 100, 0),
    ]);
    assert_eq!(
        collect_commits("/repos/demo", "demo", &read),
        Err("Unable to walk along commit graph: \nPath: /repos/demo \nError: object missing"
            .to_string())
    );
}

#[test]
fn unreadable_commit_ends_the_walk() {
    let read = walked(vec![WalkStep::Unreadable("odb error".to_string())]);
    assert_eq!(
        collect_commits("/repos/demo", "demo", &read),
        Err("Unable to find a commit from revwalk in repository: \nPath: /repos/demo \nError: odb error".to_string())
    );
}

#[test]
fn missing_message_fails_with_the_path() {
    let read = walked(vec![
        found("a3", Some("third"), 300, 0),
        found("a2", None, 200, 0),
        found("a1", Some("first"), 100, 0),
    ]);
    let result = collect_commits("/repos/demo", "demo", &read);
    assert_eq!(result, Err("Unable to read commit message: \nPath: /repos/demo".to_string()));
    assert!(result.unwrap_err().ends_with("/repos/demo"));
}

#[test]
fn first_failing_step_decides() {
    let read = walked(vec![
        found("a3", None, 300, 0),
        WalkStep::Broken("later".to_string()),
    ]);
    assert_eq!(
        collect_commits("/repos/demo", "demo", &read),
        Err("Unable to read commit message: \nPath: /repos/demo".to_string())
    );
}

#[test]
fn commit_time_out_of_range_fails_the_walk() {
    let read = walked(vec![found("a1", Some("first"), 100, 1440)]);
    assert_eq!(
        collect_commits("/repos/demo", "demo", &read),
        Err("Unable to read commit time: \nPath: /repos/demo \nError: the offset from UTC is out of range".to_string())
    );
    let read = walked(vec![found("a1", Some("first"), i64::MAX, 0)]);
    assert_eq!(
        collect_commits("/repos/demo", "demo", &read),
        Err("Unable to read commit time: \nPath: /repos/demo \nError: the timestamp is out of range".to_string())
    );
}

#[test]
fn missing_message_is_asked_before_the_time() {
    let read = walked(vec![found("a1", None, i64::MAX, 1440)]);
    assert_eq!(
        collect_commits("/repos/demo", "demo", &read),
        Err("Unable to read commit message: \nPath: /repos/demo".to_string())
    );
}

#[test]
fn ends_walk_tells_failing_steps() {
    assert!(WalkStep::Broken("x".to_string()).ends_walk());
    assert!(WalkStep::Unreadable("x".to_string()).ends_walk());
    assert!(found("a1", None, 100, 0).ends_walk());
    assert!(found("a1", Some("m"), 100, 1440).ends_walk());
    assert!(found("a1", Some("m"), i64::MAX, 0).ends_walk());
    assert!(!found("a1", Some("m"), 100, 0).ends_walk());
    assert!(!found("a1", Some(""), 100, -1439).ends_walk());
}

#[test]
fn step_outcome_builds_the_commit() {
    let step = found("f00", Some("fix"), 1_000, 60);
    assert_eq!(
        step.outcome("/r/x", "x"),
        Ok(Commit {
            id: "f00".to_string(),
            message: "fix".to_string(),
            author: "Ada <ada@example.org>".to_string(),
            time: UtcInstant { millis: 1_000_000 },
            repository_name: "x".to_string(),
        })
    );
}
