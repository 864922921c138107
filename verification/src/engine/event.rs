//! Streams as the engine takes them in and hands them on.

use crate::errors::{result_view, PriestError, PriestErrorView};
use crate::lists;
use crate::providers::adapter::{AdapterStreamEvent, AdapterStreamEventView};
use crate::schema::reasoning::{ReasoningInfo, ReasoningInfoView};
use crate::schema::response::{
    total_fits, usage_of, PriestResponse, PriestResponseView, UsageInfo, UsageInfoView,
};
use crate::schema::tools::{ToolCall, ToolCallView};
use crate::text;
use vstd::prelude::*;

verus! {

/// Engine-level structured streaming event. The terminal event is always `Done`, which carries the
/// full response.
#[derive(Debug)]
pub enum PriestStreamEvent {
    TextDelta { text: String },
    ReasoningSummaryDelta { text: String },
    ToolCallStart { index: usize, id: Option<String>, name: Option<String> },
    ToolCallDelta { index: usize, arguments_delta: String },
    ToolCallEnd { index: usize, tool_call: ToolCall },
    Usage {
        input_tokens: Option<u32>,
        output_tokens: Option<u32>,
        cached_input_tokens: Option<u32>,
        reasoning_tokens: Option<u32>,
    },
    Done { response: PriestResponse },
}

/// What a `PriestStreamEvent` holds.
pub enum PriestStreamEventView {
    TextDelta { text: Seq<char> },
    ReasoningSummaryDelta { text: Seq<char> },
    ToolCallStart { index: nat, id: Option<Seq<char>>, name: Option<Seq<char>> },
    ToolCallDelta { index: nat, arguments_delta: Seq<char> },
    ToolCallEnd { index: nat, tool_call: ToolCallView },
    Usage {
        input_tokens: Option<u32>,
        output_tokens: Option<u32>,
        cached_input_tokens: Option<u32>,
        reasoning_tokens: Option<u32>,
    },
    Done { response: PriestResponseView },
}

impl DeepView for PriestStreamEvent {
    type V = PriestStreamEventView;

    open spec fn deep_view(&self) -> PriestStreamEventView {
        match self {
            PriestStreamEvent::TextDelta { text } => PriestStreamEventView::TextDelta {
                text: text@,
            },
            PriestStreamEvent::ReasoningSummaryDelta {
                text,
            } => PriestStreamEventView::ReasoningSummaryDelta { text: text@ },
            PriestStreamEvent::ToolCallStart {
                index,
                id,
                name,
            } => PriestStreamEventView::ToolCallStart {
                index: *index as nat,
                id: id.deep_view(),
                name: name.deep_view(),
            },
            PriestStreamEvent::ToolCallDelta {
                index,
                arguments_delta,
            } => PriestStreamEventView::ToolCallDelta {
                index: *index as nat,
                arguments_delta: arguments_delta@,
            },
            PriestStreamEvent::ToolCallEnd {
                index,
                tool_call,
            } => PriestStreamEventView::ToolCallEnd {
                index: *index as nat,
                tool_call: tool_call.deep_view(),
            },
            PriestStreamEvent::Usage {
                input_tokens,
                output_tokens,
                cached_input_tokens,
                reasoning_tokens,
            } => PriestStreamEventView::Usage {
                input_tokens: *input_tokens,
                output_tokens: *output_tokens,
                cached_input_tokens: *cached_input_tokens,
                reasoning_tokens: *reasoning_tokens,
            },
            PriestStreamEvent::Done { response } => PriestStreamEventView::Done {
                response: response.deep_view(),
            },
        }
    }
}

/// What a provider's event becomes for the caller. The provider's end of the stream is not handed
/// on.
pub open spec fn forwarded(event: AdapterStreamEventView) -> Option<PriestStreamEventView> {
    match event {
        AdapterStreamEventView::TextDelta { text } => Some(
            PriestStreamEventView::TextDelta { text },
        ),
        AdapterStreamEventView::ReasoningSummaryDelta { text } => Some(
            PriestStreamEventView::ReasoningSummaryDelta { text },
        ),
        AdapterStreamEventView::ToolCallStart { index, id, name } => Some(
            PriestStreamEventView::ToolCallStart { index, id, name },
        ),
        AdapterStreamEventView::ToolCallDelta { index, arguments_delta } => Some(
            PriestStreamEventView::ToolCallDelta { index, arguments_delta },
        ),
        AdapterStreamEventView::ToolCallEnd { index, tool_call } => Some(
            PriestStreamEventView::ToolCallEnd { index, tool_call },
        ),
        AdapterStreamEventView::Usage {
            input_tokens,
            output_tokens,
            cached_input_tokens,
            reasoning_tokens,
        } => Some(
            PriestStreamEventView::Usage {
                input_tokens,
                output_tokens,
                cached_input_tokens,
                reasoning_tokens,
            },
        ),
        AdapterStreamEventView::Finish { .. } => None,
    }
}

/// What a provider's event becomes for the caller.
pub fn forward(event: AdapterStreamEvent) -> (r: Option<PriestStreamEvent>)
    ensures
        r.deep_view() == forwarded(event.deep_view()),
{
    match event {
        AdapterStreamEvent::TextDelta { text } => Some(PriestStreamEvent::TextDelta { text }),
        AdapterStreamEvent::ReasoningSummaryDelta { text } => Some(
            PriestStreamEvent::ReasoningSummaryDelta { text },
        ),
        AdapterStreamEvent::ToolCallStart { index, id, name } => Some(
            PriestStreamEvent::ToolCallStart { index, id, name },
        ),
        AdapterStreamEvent::ToolCallDelta { index, arguments_delta } => Some(
            PriestStreamEvent::ToolCallDelta { index, arguments_delta },
        ),
        AdapterStreamEvent::ToolCallEnd { index, tool_call } => Some(
            PriestStreamEvent::ToolCallEnd { index, tool_call },
        ),
        AdapterStreamEvent::Usage {
            input_tokens,
            output_tokens,
            cached_input_tokens,
            reasoning_tokens,
        } => Some(
            PriestStreamEvent::Usage {
                input_tokens,
                output_tokens,
                cached_input_tokens,
                reasoning_tokens,
            },
        ),
        AdapterStreamEvent::Finish { .. } => None,
    }
}

// ---- Streams that may break off ----

/// What came of a stream of texts before its end or its first error.
#[derive(Debug)]
pub struct TextStream {
    pub chunks: Vec<String>,
    pub error: Option<PriestError>,
}

/// What a `TextStream` holds.
pub struct TextStreamView {
    pub chunks: Seq<Seq<char>>,
    pub error: Option<PriestErrorView>,
}

impl DeepView for TextStream {
    type V = TextStreamView;

    open spec fn deep_view(&self) -> TextStreamView {
        TextStreamView { chunks: self.chunks.deep_view(), error: self.error.deep_view() }
    }
}

/// What came of a stream of events before its end or its first error.
#[derive(Debug)]
pub struct EventStream {
    pub events: Vec<AdapterStreamEvent>,
    pub error: Option<PriestError>,
}

/// What an `EventStream` holds.
pub struct EventStreamView {
    pub events: Seq<AdapterStreamEventView>,
    pub error: Option<PriestErrorView>,
}

impl DeepView for EventStream {
    type V = EventStreamView;

    open spec fn deep_view(&self) -> EventStreamView {
        EventStreamView { events: self.events.deep_view(), error: self.error.deep_view() }
    }
}

/// What the items of a stream hold.
pub open spec fn items_view<T: DeepView>(items: Seq<Result<T, PriestError>>) -> Seq<
    Result<T::V, PriestErrorView>,
> {
    Seq::new(items.len(), |i: int| result_view(items[i]))
}

/// The items of a stream before its first error.
pub open spec fn before_error<V>(items: Seq<Result<V, PriestErrorView>>) -> Seq<V>
    decreases items.len(),
{
    if items.len() == 0 {
        Seq::empty()
    } else {
        match items[0] {
            Ok(value) => seq![value] + before_error(items.drop_first()),
            Err(_) => Seq::empty(),
        }
    }
}

/// The first error of a stream.
pub open spec fn first_error<V>(items: Seq<Result<V, PriestErrorView>>) -> Option<PriestErrorView>
    decreases items.len(),
{
    if items.len() == 0 {
        None
    } else {
        match items[0] {
            Ok(_) => first_error(items.drop_first()),
            Err(e) => Some(e),
        }
    }
}

/// The items of a stream before its first error, and that error.
pub fn cut_at_error<T: DeepView>(items: Vec<Result<T, PriestError>>) -> (r: (
    Vec<T>,
    Option<PriestError>,
))
    ensures
        r.0.deep_view() == before_error(items_view(items@)),
        r.1.deep_view() == first_error(items_view(items@)),
{
    let ghost all = items_view(items@);
    let mut values: Vec<T> = lists::no_items();
    assert(all.skip(0) =~= all);
    assert(values.deep_view() + before_error(all) =~= before_error(all));
    for item in it: items
        invariant
            all == items_view(it.seq()),
            all == items_view(items@),
            values.deep_view() + before_error(all.skip(it.index())) == before_error(all),
            first_error(all.skip(it.index())) == first_error(all),
    {
        let ghost left = all.skip(it.index());
        let ghost so_far = values.deep_view();
        assert(left[0] == result_view(item));
        assert(left.drop_first() =~= all.skip(it.index() + 1));
        match item {
            Ok(value) => {
                lists::push_item(&mut values, value);
                assert(values.deep_view() + before_error(left.drop_first()) =~= so_far
                    + before_error(left));
            },
            Err(e) => {
                assert(so_far + before_error(left) =~= so_far);
                return (values, Some(e));
            },
        }
    }
    assert(all.skip(all.len() as int) =~= Seq::empty());
    assert(values.deep_view() + before_error(all.skip(all.len() as int)) =~= values.deep_view());
    (values, None)
}

/// Takes in a stream of texts.
pub fn collect_texts(items: Vec<Result<String, PriestError>>) -> (r: TextStream)
    ensures
        r.deep_view() == (TextStreamView {
            chunks: before_error(items_view(items@)),
            error: first_error(items_view(items@)),
        }),
{
    let (chunks, error) = cut_at_error(items);
    TextStream { chunks, error }
}

/// Takes in a stream of events.
pub fn collect_events(items: Vec<Result<AdapterStreamEvent, PriestError>>) -> (r: EventStream)
    ensures
        r.deep_view() == (EventStreamView {
            events: before_error(items_view(items@)),
            error: first_error(items_view(items@)),
        }),
{
    let (events, error) = cut_at_error(items);
    EventStream { events, error }
}

// ---- What a stream of events amounts to ----

/// What a stream of events amounts to.
pub struct SummedView {
    /// The events as the caller gets them.
    pub forwarded: Seq<PriestStreamEventView>,
    /// The pieces of text.
    pub texts: Seq<Seq<char>>,
    pub tool_calls: Seq<ToolCallView>,
    pub usage: Option<UsageInfoView>,
    pub finish_reason: Option<Seq<char>>,
    pub reasoning: Option<ReasoningInfoView>,
}

impl SummedView {
    /// With one more event.
    pub open spec fn with_event(self, event: AdapterStreamEventView) -> SummedView {
        let next = SummedView {
            forwarded: match forwarded(event) {
                Some(f) => self.forwarded.push(f),
                None => self.forwarded,
            },
            ..self
        };
        match event {
            AdapterStreamEventView::TextDelta { text } => SummedView {
                texts: self.texts.push(text),
                ..next
            },
            AdapterStreamEventView::ToolCallEnd { tool_call, .. } => SummedView {
                tool_calls: self.tool_calls.push(tool_call),
                ..next
            },
            AdapterStreamEventView::Usage {
                input_tokens,
                output_tokens,
                cached_input_tokens,
                reasoning_tokens,
            } => SummedView {
                usage: Some(
                    usage_of(input_tokens, output_tokens, cached_input_tokens, reasoning_tokens),
                ),
                ..next
            },
            AdapterStreamEventView::Finish { finish_reason, reasoning } => SummedView {
                finish_reason,
                reasoning,
                ..next
            },
            _ => next,
        }
    }
}

/// What events amount to.
pub open spec fn summed(events: Seq<AdapterStreamEventView>) -> SummedView
    decreases events.len(),
{
    if events.len() == 0 {
        SummedView {
            forwarded: Seq::empty(),
            texts: Seq::empty(),
            tool_calls: Seq::empty(),
            usage: None,
            finish_reason: None,
            reasoning: None,
        }
    } else {
        summed(events.drop_last()).with_event(events.last())
    }
}

/// Whether every total of token counts that a stream tells can be written down.
pub open spec fn totals_fit(events: Seq<AdapterStreamEventView>) -> bool {
    forall|i: int|
        0 <= i < events.len() ==> (#[trigger] events[i] matches AdapterStreamEventView::Usage {
            input_tokens,
            output_tokens,
            ..
        } ==> total_fits(input_tokens, output_tokens))
}

/// What a stream of events amounts to.
#[derive(Debug)]
pub struct Summed {
    pub forwarded: Vec<PriestStreamEvent>,
    pub texts: Vec<String>,
    pub tool_calls: Vec<ToolCall>,
    pub usage: Option<UsageInfo>,
    pub finish_reason: Option<String>,
    pub reasoning: Option<ReasoningInfo>,
}

impl DeepView for Summed {
    type V = SummedView;

    open spec fn deep_view(&self) -> SummedView {
        SummedView {
            forwarded: self.forwarded.deep_view(),
            texts: self.texts.deep_view(),
            tool_calls: self.tool_calls.deep_view(),
            usage: self.usage.deep_view(),
            finish_reason: self.finish_reason.deep_view(),
            reasoning: self.reasoning.deep_view(),
        }
    }
}

/// Sums a stream of events up.
pub fn sum_events(events: Vec<AdapterStreamEvent>) -> (r: Summed)
    requires
        totals_fit(events.deep_view()),
    ensures
        r.deep_view() == summed(events.deep_view()),
{
    let ghost all = events.deep_view();
    let mut r = Summed {
        forwarded: lists::no_items(),
        texts: lists::no_items(),
        tool_calls: lists::no_items(),
        usage: None,
        finish_reason: None,
        reasoning: None,
    };
    assert(r.deep_view() == summed(all.take(0)));
    for event in it: events
        invariant
            all == events.deep_view(),
            it.seq() == events@,
            totals_fit(all),
            r.deep_view() == summed(all.take(it.index())),
    {
        proof {
            let done = it.index();
            assert(event.deep_view() == all[done]);
            assert(all.take(done + 1).drop_last() == all.take(done));
            assert(all.take(done + 1).last() == all[done]);
        }
        match &event {
            AdapterStreamEvent::TextDelta { text } => {
                text::push_text(&mut r.texts, text.clone());
            },
            AdapterStreamEvent::ToolCallEnd { tool_call, .. } => {
                lists::push_item(&mut r.tool_calls, tool_call.clone());
            },
            AdapterStreamEvent::Usage {
                input_tokens,
                output_tokens,
                cached_input_tokens,
                reasoning_tokens,
            } => {
                r.usage = Some(
                    UsageInfo::new(
                        *input_tokens,
                        *output_tokens,
                        *cached_input_tokens,
                        *reasoning_tokens,
                    ),
                );
            },
            AdapterStreamEvent::Finish { finish_reason, reasoning } => {
                r.finish_reason = finish_reason.clone();
                r.reasoning = reasoning.clone();
            },
            _ => {},
        }
        if let Some(f) = forward(event) {
            lists::push_item(&mut r.forwarded, f);
        }
    }
    assert(all.take(all.len() as int) =~= all);
    r
}

} // verus!
