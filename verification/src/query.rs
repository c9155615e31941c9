//! The query adapter: from a range of time to the question for the store,
//! and from what the store streams back to the summaries handed out.
//!
//! The summaries come in the order of the stream. A stream that fails hands
//! out nothing: the failure is the whole answer.

use crate::commit::{
    git_plugin_name, summary_of, timing_intersects, CommitEvent, CommitEventView, CompressedEvent,
    CompressedEventView, SourceTag, TimeRange,
};
use crate::text::views;
use vstd::prelude::*;
use vstd::string::*;

verus! {

/// The question put to the store: the events of one plugin whose timing has
/// an instant in common with `range`.
#[derive(Clone, Debug, PartialEq, Eq)]
pub struct RangeFilter {
    pub plugin: SourceTag,
    pub range: TimeRange,
}

/// What a [`RangeFilter`] holds, with its texts as sequences of characters.
pub struct RangeFilterView {
    pub plugin: Seq<char>,
    pub range: TimeRange,
}

impl View for RangeFilter {
    type V = RangeFilterView;

    open spec fn view(&self) -> RangeFilterView {
        RangeFilterView { plugin: self.plugin@, range: self.range }
    }
}

/// One item of the store's stream.
#[derive(Clone, Debug, PartialEq, Eq)]
pub enum StreamItem {
    Event(CommitEvent),
    /// The stream broke at this item; the text says why.
    Failed(String),
}

/// What a [`StreamItem`] holds, with its texts as sequences of characters.
pub enum StreamItemView {
    Event(CommitEventView),
    Failed(Seq<char>),
}

impl View for StreamItem {
    type V = StreamItemView;

    open spec fn view(&self) -> StreamItemView {
        match self {
            StreamItem::Event(event) => StreamItemView::Event(event@),
            StreamItem::Failed(cause) => StreamItemView::Failed(cause@),
        }
    }
}

/// What the store gave for a question.
#[derive(Clone, Debug, PartialEq, Eq)]
pub enum StoreRead {
    /// The store refused the question.
    Refused(String),
    /// The store streamed these items, in this order.
    Streamed(Vec<StreamItem>),
}

/// What a [`StoreRead`] holds, with its texts as sequences of characters.
pub enum StoreReadView {
    Refused(Seq<char>),
    Streamed(Seq<StreamItemView>),
}

impl View for StoreRead {
    type V = StoreReadView;

    open spec fn view(&self) -> StoreReadView {
        match self {
            StoreRead::Refused(cause) => StoreReadView::Refused(cause@),
            StoreRead::Streamed(items) => StoreReadView::Streamed(views(items@)),
        }
    }
}

/// Whether the filter accepts an event: the plugin is the filter's and the
/// timing meets the filter's range.
pub open spec fn range_filter_accepts(filter: RangeFilterView, event: CommitEventView) -> bool {
    event.plugin == filter.plugin && timing_intersects(event.timing, filter.range)
}

/// The question for the git plugin's events in `range`.
pub open spec fn range_filter(range: TimeRange) -> RangeFilterView {
    RangeFilterView { plugin: git_plugin_name(), range }
}

/// Whether an item breaks the stream.
pub open spec fn item_fails(item: StreamItemView) -> bool {
    item is Failed
}

/// What a stream gives: the summaries of its events in order, or the failure
/// of the first item that broke it.
pub open spec fn stream_outcome(items: Seq<StreamItemView>) -> Result<
    Seq<CompressedEventView>,
    Seq<char>,
>
    decreases items.len(),
{
    if items.len() == 0 {
        Ok(Seq::empty())
    } else {
        match stream_outcome(items.drop_last()) {
            Err(cause) => Err(cause),
            Ok(summaries) => match items.last() {
                StreamItemView::Failed(cause) => Err(cause),
                StreamItemView::Event(event) => Ok(summaries.push(summary_of(event))),
            },
        }
    }
}

/// What a query gives: the store's refusal, or what its stream gives.
pub open spec fn query_outcome(read: StoreReadView) -> Result<
    Seq<CompressedEventView>,
    Seq<char>,
> {
    match read {
        StoreReadView::Refused(cause) => Err(cause),
        StoreReadView::Streamed(items) => stream_outcome(items),
    }
}

/// The view of a result that holds summaries.
pub open spec fn summaries_result_view(r: Result<Vec<CompressedEvent>, String>) -> Result<
    Seq<CompressedEventView>,
    Seq<char>,
> {
    match r {
        Ok(summaries) => Ok(views(summaries@)),
        Err(message) => Err(message@),
    }
}

/// A stream whose beginning fails gives the failure of that beginning.
pub proof fn lemma_broken_prefix_decides(items: Seq<StreamItemView>, n: int)
    requires
        0 <= n <= items.len(),
        stream_outcome(items.take(n)) is Err,
    ensures
        stream_outcome(items) == stream_outcome(items.take(n)),
    decreases items.len(),
{
    if n == items.len() {
        assert(items.take(n) == items);
    } else {
        assert(items.drop_last().take(n) == items.take(n));
        lemma_broken_prefix_decides(items.drop_last(), n);
    }
}

/// A stream of events alone gives one summary per event, in the order of the
/// stream.
pub proof fn lemma_whole_stream(items: Seq<StreamItemView>)
    requires
        forall|i: int| 0 <= i < items.len() ==> !item_fails(#[trigger] items[i]),
    ensures
        stream_outcome(items) is Ok,
        stream_outcome(items)->Ok_0.len() == items.len(),
        forall|i: int|
            0 <= i < items.len() ==> #[trigger] stream_outcome(items)->Ok_0[i] == summary_of(
                items[i]->Event_0,
            ),
    decreases items.len(),
{
    if items.len() > 0 {
        lemma_whole_stream(items.drop_last());
        assert(!item_fails(items.last()));
    }
}

/// The first item that breaks the stream is the whole answer: no summary of
/// an earlier event is handed out.
pub proof fn lemma_first_break_decides(items: Seq<StreamItemView>, at: int)
    requires
        0 <= at < items.len(),
        item_fails(items[at]),
        forall|i: int| 0 <= i < at ==> !item_fails(#[trigger] items[i]),
    ensures
        stream_outcome(items) == Err::<Seq<CompressedEventView>, Seq<char>>(
            items[at]->Failed_0,
        ),
{
    lemma_whole_stream(items.take(at));
    assert(items.take(at + 1).drop_last() == items.take(at));
    assert(items.take(at + 1).last() == items[at]);
    lemma_broken_prefix_decides(items, at + 1);
}

impl RangeFilter {
    /// Whether the filter accepts `event`.
    pub fn accepts(&self, event: &CommitEvent) -> (b: bool)
        ensures
            b == range_filter_accepts(self@, event@),
    {
        event.plugin.same_as(&self.plugin) && event.timing.intersects(&self.range)
    }
}

/// The summaries of a stream in order, or the failure that broke it.
pub fn compress_stream(items: &Vec<StreamItem>) -> (r: Result<Vec<CompressedEvent>, String>)
    ensures
        summaries_result_view(r) == stream_outcome(views(items@)),
{
    let mut result: Vec<CompressedEvent> = Vec::new();
    let mut i: usize = 0;
    proof {
        assert(views(result@) == Seq::<CompressedEventView>::empty());
        assert(views(items@).take(0).len() == 0);
    }
    while i < items.len()
        invariant
            i <= items.len(),
            stream_outcome(views(items@).take(i as int)) == Ok::<
                Seq<CompressedEventView>,
                Seq<char>,
            >(views(result@)),
        decreases items.len() - i,
    {
        proof {
            let seen = views(items@).take(i + 1);
            assert(seen.drop_last() == views(items@).take(i as int));
            assert(seen.last() == items@[i as int]@);
        }
        match &items[i] {
            StreamItem::Failed(cause) => {
                proof {
                    lemma_broken_prefix_decides(views(items@), i + 1);
                }
                return Err(cause.clone());
            },
            StreamItem::Event(event) => {
                let summary = event.summary();
                proof {
                    assert(views(result@.push(summary)) == views(result@).push(summary@));
                }
                result.push(summary);
            },
        }
        i += 1;
    }
    proof {
        assert(views(items@).take(i as int) == views(items@));
    }
    Ok(result)
}

} // verus!
