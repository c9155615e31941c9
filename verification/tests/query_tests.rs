use timeline_plugin_git::commit::{
    CommitEvent, CompressedEvent, DatabaseCommit, SourceTag, TimeRange, Timing,
};
use timeline_plugin_git::query::{compress_stream, RangeFilter, StoreRead, StreamItem};
use timeline_plugin_git::server::{ConfigData, Plugin};
use timeline_plugin_git::time::UtcInstant;

fn plugin() -> Plugin {
    Plugin::new(ConfigData { repo_folder: "/repos".to_string() })
}

fn payload(message: &str, repository_name: &str) -> DatabaseCommit {
    DatabaseCommit {
        message: message.to_string(),
        author: "Ada".to_string(),
        repository_name: repository_name.to_string(),
    }
}

fn event(id: &str, millis: i64, repository_name: &str) -> CommitEvent {
    CommitEvent {
        timing: Timing::Instant(UtcInstant { millis }),
        id: id.to_string(),
        plugin: SourceTag::git(),
        event: payload(id, repository_name),
    }
}

fn range(start: i64, end: i64) -> TimeRange {
    TimeRange { start: UtcInstant { millis: start }, end: UtcInstant { millis: end } }
}

#[test]
fn events_filter_is_for_the_git_plugin_in_the_range() {
    assert_eq!(
        plugin().events_filter(&range(10, 20)),
        RangeFilter {
            plugin: SourceTag { name: "timeline_plugin_git".to_string() },
            range: range(10, 20),
        }
    );
}

#[test]
fn range_filter_accepts_instants_within_the_range() {
    let filter = plugin().events_filter(&range(10, 20));
    assert!(filter.accepts(&event("a", 10, "demo")));
    assert!(filter.accepts(&event("a", 15, "demo")));
    assert!(filter.accepts(&event("a", 20, "demo")));
    assert!(!filter.accepts(&event("a", 9, "demo")));
    assert!(!filter.accepts(&event("a", 21, "demo")));
}

#[test]
fn range_filter_refuses_other_plugins() {
    let filter = plugin().events_filter(&range(10, 20));
    let mut foreign = event("a", 15, "demo");
    foreign.plugin = SourceTag { name: "timeline_plugin_media".to_string() };
    assert!(!filter.accepts(&foreign));
}

#[test]
fn timing_of_a_span_intersects_when_the_spans_touch() {
    let timing = Timing::Range(range(10, 20));
    assert!(timing.intersects(&range(20, 30)));
    assert!(timing.intersects(&range(0, 10)));
    assert!(timing.intersects(&range(12, 13)));
    assert!(timing.intersects(&range(0, 100)));
    assert!(!timing.intersects(&range(21, 30)));
    assert!(!timing.intersects(&range(0, 9)));
}

#[test]
fn summary_is_titled_with_the_repository() {
    assert_eq!(
        event("a1", 5, "demo").summary(),
        CompressedEvent {
            title: "demo".to_string(),
            time: Timing::Instant(UtcInstant { millis: 5 }),
            data: payload("a1", "demo"),
        }
    );
}

#[test]
fn query_gives_summaries_in_the_order_of_the_store() {
    let read = StoreRead::Streamed(vec![
        StreamItem::Event(event("a2", 20, "demo")),
        StreamItem::Event(event("b1", 5, "other")),
        StreamItem::Event(event("a1", 10, "demo")),
    ]);
    let summaries = plugin().get_compressed_events(&read).unwrap();
    assert_eq!(
        summaries,
        vec![
            event("a2", 20, "demo").summary(),
            event("b1", 5, "other").summary(),
            event("a1", 10, "demo").summary(),
        ]
    );
    assert_eq!(summaries[1].title, "other");
}

#[test]
fn query_of_an_empty_stream_is_empty() {
    assert_eq!(plugin().get_compressed_events(&StoreRead::Streamed(vec![])), Ok(vec![]));
}

#[test]
fn refused_query_is_the_failure() {
    assert_eq!(
        plugin().get_compressed_events(&StoreRead::Refused("no connection".to_string())),
        Err("no connection".to_string())
    );
}

#[test]
fn broken_stream_gives_no_partial_answer() {
    let items = vec![
        StreamItem::Event(event("a2", 20, "demo")),
        StreamItem::Failed("cursor lost".to_string()),
        StreamItem::Event(event("a1", 10, "demo")),
        StreamItem::Failed("again".to_string()),
    ];
    assert_eq!(compress_stream(&items), Err("cursor lost".to_string()));
    assert_eq!(
        plugin().get_compressed_events(&StoreRead::Streamed(items)),
        Err("cursor lost".to_string())
    );
}
