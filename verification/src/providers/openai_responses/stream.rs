//! Reads a streamed answer of the Responses API as structured events.

use super::response::{
    failure, failure_text, parse_response, provider_error, refusal, response_error, result_of,
};
use crate::errors::{result_view, PriestError, PriestErrorView};
use crate::json;
use crate::json::{
    compact_text, json_of_text, json_view, list_view, member, text, unsigned, Json,
};
use crate::lists;
use crate::providers::adapter::{
    ends_once, is_success, push_usage, unfinished, usage_event, well_ended, AdapterResult,
    AdapterResultView, AdapterStreamEvent, AdapterStreamEventView,
};
use crate::providers::sse;
use crate::providers::sse::body_contents;
use crate::schema::tools::{
    arguments_in_text, parse_tool_arguments, synthesize_id, synthesized_id, ToolCall, ToolCallView,
};
use crate::text;
use serde_json::Value;
use vstd::prelude::*;

verus! {

// ---- From the body to values ----

/// The data of each frame of a body.
pub open spec fn data_of(body: Seq<char>) -> Seq<Seq<char>> {
    let contents = body_contents(body);
    Seq::new(contents.len(), |i: int| contents[i].1)
}

/// The data of each frame of a body.
pub fn sse_data(body: &str) -> (r: Vec<String>)
    ensures
        r.deep_view() == data_of(body@),
{
    let frames = sse::event_frames(body);
    let ghost all = body_contents(body@);
    let mut r: Vec<String> = lists::no_items();
    let mut i: usize = 0;
    assert(r.deep_view() =~= data_of(body@).take(0));
    while i < frames.len()
        invariant
            i <= frames@.len(),
            all == frames.deep_view(),
            all == body_contents(body@),
            r.deep_view() == data_of(body@).take(i as int),
        decreases frames@.len() - i,
    {
        assert(frames@[i as int].deep_view() == all[i as int]);
        text::push_text(&mut r, frames[i].1.clone());
        i += 1;
        assert(r.deep_view() =~= data_of(body@).take(i as int));
    }
    assert(data_of(body@).take(i as int) =~= data_of(body@));
    r
}

/// The values that data stands for, up to the mark of the end and without what is no JSON.
pub open spec fn values_from(data: Seq<Seq<char>>, from: int) -> Seq<Json>
    decreases data.len() - from,
{
    if from < 0 || from >= data.len() || data[from] == "[DONE]"@ {
        Seq::empty()
    } else {
        match json_of_text(data[from]) {
            Ok(value) => seq![value] + values_from(data, from + 1),
            Err(_) => values_from(data, from + 1),
        }
    }
}

fn read_values(data: &Vec<String>) -> (r: Vec<Value>)
    ensures
        list_view(r@) == values_from(data.deep_view(), 0),
{
    let mut r: Vec<Value> = Vec::new();
    let ghost all = data.deep_view();
    let mut i: usize = 0;
    assert(list_view(r@) + values_from(all, 0) =~= values_from(all, 0));
    while i < data.len() && !text::same(data[i].as_str(), "[DONE]")
        invariant
            i <= data@.len(),
            all == data.deep_view(),
            list_view(r@) + values_from(all, i as int) == values_from(all, 0),
        decreases data@.len() - i,
    {
        assert(all[i as int] == data@[i as int]@);
        let ghost before = list_view(r@);
        if let Ok(value) = json::parse(data[i].as_str()) {
            r.push(value);
            assert(list_view(r@) =~= before.push(json_view(value)));
            assert(list_view(r@) + values_from(all, i + 1) =~= before + values_from(
                all,
                i as int,
            ));
        }
        i += 1;
    }
    assert(values_from(all, i as int) =~= Seq::empty()) by {
        if i < data@.len() {
            assert(all[i as int] == data@[i as int]@);
        }
    }
    assert(list_view(r@) + values_from(all, i as int) =~= list_view(r@));
    r
}

// ---- Calls in the making ----

/// A function call whose parts are still coming in.
pub struct PartialCallView {
    /// Which output item of the response the call is.
    pub output_index: u64,
    /// Which call of the stream it is, counted in the order in which they were first heard of.
    pub event_index: nat,
    pub call_id: Option<Seq<char>>,
    pub name: Option<Seq<char>>,
    pub arguments: Seq<char>,
    /// Whether the end of the call was told.
    pub ended: bool,
}

struct PartialCall {
    output_index: u64,
    event_index: usize,
    call_id: Option<String>,
    name: Option<String>,
    arguments: String,
    ended: bool,
}

impl DeepView for PartialCall {
    type V = PartialCallView;

    closed spec fn deep_view(&self) -> PartialCallView {
        PartialCallView {
            output_index: self.output_index,
            event_index: self.event_index as nat,
            call_id: self.call_id.deep_view(),
            name: self.name.deep_view(),
            arguments: self.arguments@,
            ended: self.ended,
        }
    }
}

/// A call of which nothing is known yet.
pub open spec fn unknown_call(output_index: u64, event_index: nat) -> PartialCallView {
    PartialCallView {
        output_index,
        event_index,
        call_id: None,
        name: None,
        arguments: Seq::empty(),
        ended: false,
    }
}

/// Where the call of an output item stands, or would stand, among calls ordered by output item.
pub open spec fn place(partials: Seq<PartialCallView>, output_index: u64, from: int) -> int
    decreases partials.len() - from,
{
    if from < 0 || from >= partials.len() || partials[from].output_index >= output_index {
        from
    } else {
        place(partials, output_index, from + 1)
    }
}

/// The calls with one for the given output item among them.
pub open spec fn with_call(
    partials: Seq<PartialCallView>,
    output_index: u64,
) -> Seq<PartialCallView> {
    let at = place(partials, output_index, 0);
    if at < partials.len() && partials[at].output_index == output_index {
        partials
    } else {
        partials.insert(at, unknown_call(output_index, partials.len()))
    }
}

/// What an output item tells of its call, over what was known.
pub open spec fn told_by(call: PartialCallView, item: Json) -> PartialCallView {
    PartialCallView {
        call_id: match text(member(item, "call_id"@)) {
            Some(id) => Some(id),
            None => call.call_id,
        },
        name: match text(member(item, "name"@)) {
            Some(name) => Some(name),
            None => call.name,
        },
        arguments: match text(member(item, "arguments"@)) {
            Some(arguments) => arguments,
            None => call.arguments,
        },
        ..call
    }
}

/// The call's id, synthesized where the provider gave none.
pub open spec fn id_of(call: PartialCallView) -> Seq<char> {
    match call.call_id {
        Some(id) => id,
        None => synthesized_id(call.event_index),
    }
}

/// The event that tells the end of a call.
pub open spec fn end_of(call: PartialCallView) -> AdapterStreamEventView {
    AdapterStreamEventView::ToolCallEnd {
        index: call.event_index,
        tool_call: ToolCallView {
            id: id_of(call),
            name: match call.name {
                Some(name) => name,
                None => ""@,
            },
            arguments: arguments_in_text(call.arguments),
        },
    }
}

// ---- One event after the other ----

/// How far a stream was read: the events told so far, the calls heard of in the order of their
/// output items, and the ids of the calls whose end was told.
pub struct StreamView {
    pub events: Seq<AdapterStreamEventView>,
    pub partials: Seq<PartialCallView>,
    pub emitted: Seq<Seq<char>>,
}

/// What an event leads to: reading on, or a result.
pub enum StreamStep {
    Continue(StreamView),
    Stop(Result<Seq<AdapterStreamEventView>, PriestErrorView>),
}

/// A stream of which nothing was read.
pub open spec fn unread() -> StreamView {
    StreamView { events: Seq::empty(), partials: Seq::empty(), emitted: Seq::empty() }
}

impl StreamView {
    /// With one more event told.
    pub open spec fn telling(self, event: AdapterStreamEventView) -> StreamView {
        StreamView { events: self.events.push(event), ..self }
    }

    /// With the end of the call at `at` told, unless it was told before.
    pub open spec fn ending(self, at: int) -> StreamView {
        let call = self.partials[at];
        if call.ended {
            self
        } else {
            StreamView {
                events: self.events.push(end_of(call)),
                partials: self.partials.update(at, PartialCallView { ended: true, ..call }),
                emitted: self.emitted.push(id_of(call)),
            }
        }
    }

    /// With the end of every call from `from` on told, unless it was told before.
    pub open spec fn ending_all(self, from: int) -> StreamView
        decreases self.partials.len() - from,
    {
        if from < 0 || from >= self.partials.len() {
            self
        } else {
            self.ending(from).ending_all(from + 1)
        }
    }
}

/// What a call that only the complete response tells of adds: its start and its end.
pub open spec fn whole_call(call: ToolCallView, index: nat) -> Seq<AdapterStreamEventView> {
    seq![
        AdapterStreamEventView::ToolCallStart {
            index,
            id: Some(call.id),
            name: Some(call.name),
        },
        AdapterStreamEventView::ToolCallEnd { index, tool_call: call },
    ]
}

/// The events of those calls from `from` on whose ids are not among `emitted`, numbered from `next`
/// on.
pub open spec fn missing_calls(
    calls: Seq<ToolCallView>,
    emitted: Seq<Seq<char>>,
    next: nat,
    from: int,
) -> Seq<AdapterStreamEventView>
    decreases calls.len() - from,
{
    if from < 0 || from >= calls.len() {
        Seq::empty()
    } else if emitted.contains(calls[from].id) {
        missing_calls(calls, emitted, next, from + 1)
    } else {
        whole_call(calls[from], next) + missing_calls(
            calls,
            emitted.push(calls[from].id),
            next + 1,
            from + 1,
        )
    }
}

/// The event that tells the usage of a result, if there is any to tell.
pub open spec fn usage_of_result(result: AdapterResultView) -> Seq<AdapterStreamEventView> {
    usage_event(
        result.input_tokens,
        result.output_tokens,
        result.cached_input_tokens,
        result.reasoning_tokens,
    )
}

/// The tool calls of a result, none where there are none.
pub open spec fn calls_of(result: AdapterResultView) -> Seq<ToolCallView> {
    match result.tool_calls {
        Some(calls) => calls,
        None => Seq::empty(),
    }
}

/// All events of a stream that ends with a complete response.
pub open spec fn completed(
    s: StreamView,
    result: AdapterResultView,
) -> Seq<AdapterStreamEventView> {
    let ended = s.ending_all(0);
    (ended.events + missing_calls(calls_of(result), ended.emitted, ended.partials.len(), 0)
        + usage_of_result(result)).push(
        AdapterStreamEventView::Finish {
            finish_reason: result.finish_reason,
            reasoning: result.reasoning,
        },
    )
}

/// All events of a stream that breaks off.
pub open spec fn broken_off(s: StreamView) -> Seq<AdapterStreamEventView> {
    s.ending_all(0).events.push(
        AdapterStreamEventView::Finish {
            finish_reason: Some(
                if s.partials.len() == 0 {
                    "stop"@
                } else {
                    "tool_calls"@
                },
            ),
            reasoning: None,
        },
    )
}

/// The output item that an event is about; `otherwise` where it does not say.
pub open spec fn output_index(event: Json, otherwise: u64) -> u64 {
    match unsigned(member(event, "output_index"@)) {
        Some(n) => n,
        None => otherwise,
    }
}

/// What the start of a call leads to.
pub open spec fn on_added(s: StreamView, event: Json) -> StreamView {
    let index = output_index(event, s.partials.len() as u64);
    let partials = with_call(s.partials, index);
    let at = place(s.partials, index, 0);
    let call = told_by(partials[at], member(event, "item"@));
    StreamView {
        events: s.events.push(
            AdapterStreamEventView::ToolCallStart {
                index: call.event_index,
                id: call.call_id,
                name: call.name,
            },
        ),
        partials: partials.update(at, call),
        emitted: s.emitted,
    }
}

/// What a piece of a call's arguments leads to.
pub open spec fn on_arguments_delta(s: StreamView, event: Json) -> StreamView {
    let index = output_index(event, 0);
    let partials = with_call(s.partials, index);
    let at = place(s.partials, index, 0);
    match text(member(event, "delta"@)) {
        Some(delta) if delta.len() > 0 => StreamView {
            events: s.events.push(
                AdapterStreamEventView::ToolCallDelta {
                    index: partials[at].event_index,
                    arguments_delta: delta,
                },
            ),
            partials: partials.update(
                at,
                PartialCallView { arguments: partials[at].arguments + delta, ..partials[at] },
            ),
            emitted: s.emitted,
        },
        _ => StreamView { partials, ..s },
    }
}

/// What the end of a call's arguments leads to.
pub open spec fn on_arguments_done(s: StreamView, event: Json) -> StreamView {
    let index = output_index(event, 0);
    let partials = with_call(s.partials, index);
    let at = place(s.partials, index, 0);
    let call = PartialCallView {
        arguments: match text(member(event, "arguments"@)) {
            Some(arguments) => arguments,
            None => partials[at].arguments,
        },
        name: match text(member(event, "name"@)) {
            Some(name) => Some(name),
            None => partials[at].name,
        },
        ..partials[at]
    };
    StreamView { partials: partials.update(at, call), ..s }.ending(at)
}

/// What the end of a call leads to.
pub open spec fn on_call_done(s: StreamView, event: Json) -> StreamView {
    let index = output_index(event, 0);
    let partials = with_call(s.partials, index);
    let at = place(s.partials, index, 0);
    StreamView {
        partials: partials.update(at, told_by(partials[at], member(event, "item"@))),
        ..s
    }.ending(at)
}

/// Whether an event is of the given type.
pub open spec fn is_of(event: Json, kind: Seq<char>) -> bool {
    member(event, "type"@) == Json::Text(kind)
}

/// Whether an event is about a function call item.
pub open spec fn is_about_call(event: Json) -> bool {
    is_of(member(event, "item"@), "function_call"@)
}

/// What an event leads to.
pub open spec fn step(s: StreamView, event: Json) -> StreamStep {
    if is_of(event, "response.output_text.delta"@) {
        match text(member(event, "delta"@)) {
            Some(text) if text.len() > 0 => StreamStep::Continue(
                s.telling(AdapterStreamEventView::TextDelta { text }),
            ),
            _ => StreamStep::Continue(s),
        }
    } else if is_of(event, "response.reasoning_summary_text.delta"@) {
        match text(member(event, "delta"@)) {
            Some(text) if text.len() > 0 => StreamStep::Continue(
                s.telling(AdapterStreamEventView::ReasoningSummaryDelta { text }),
            ),
            _ => StreamStep::Continue(s),
        }
    } else if is_of(event, "response.output_item.added"@) && is_about_call(event) {
        StreamStep::Continue(on_added(s, event))
    } else if is_of(event, "response.function_call_arguments.delta"@) {
        StreamStep::Continue(on_arguments_delta(s, event))
    } else if is_of(event, "response.function_call_arguments.done"@) {
        StreamStep::Continue(on_arguments_done(s, event))
    } else if is_of(event, "response.output_item.done"@) && is_about_call(event) {
        StreamStep::Continue(on_call_done(s, event))
    } else if is_of(event, "response.completed"@) {
        StreamStep::Stop(
            match result_of(member(event, "response"@)) {
                Ok(result) => Ok(completed(s, result)),
                Err(e) => Err(e),
            },
        )
    } else if is_of(event, "response.failed"@) || is_of(event, "response.cancelled"@) {
        StreamStep::Stop(Err(failure(failure_text(member(event, "response"@)))))
    } else if is_of(event, "error"@) {
        StreamStep::Stop(
            Err(
                failure(
                    match text(member(event, "message"@)) {
                        Some(message) => message,
                        None => compact_text(event),
                    },
                ),
            ),
        )
    } else {
        StreamStep::Continue(s)
    }
}

/// What the values from `from` on lead to.
pub open spec fn read_on(
    s: StreamView,
    values: Seq<Json>,
    from: int,
) -> Result<Seq<AdapterStreamEventView>, PriestErrorView>
    decreases values.len() - from,
{
    if from < 0 || from >= values.len() {
        Ok(broken_off(s))
    } else {
        match step(s, values[from]) {
            StreamStep::Continue(next) => read_on(next, values, from + 1),
            StreamStep::Stop(result) => result,
        }
    }
}

/// The events that a stream of values stands for, or the error that it tells of.
pub open spec fn events_in(values: Seq<Json>) -> Result<
    Seq<AdapterStreamEventView>,
    PriestErrorView,
> {
    read_on(unread(), values, 0)
}

// ---- Reading ----

struct Stream {
    events: Vec<AdapterStreamEvent>,
    partials: Vec<PartialCall>,
    emitted: Vec<String>,
}

impl DeepView for Stream {
    type V = StreamView;

    closed spec fn deep_view(&self) -> StreamView {
        StreamView {
            events: self.events.deep_view(),
            partials: self.partials.deep_view(),
            emitted: self.emitted.deep_view(),
        }
    }
}

/// How many calls' ends were told.
spec fn ended_count(partials: Seq<PartialCallView>) -> nat
    decreases partials.len(),
{
    if partials.len() == 0 {
        0
    } else {
        ended_count(partials.drop_last()) + if partials.last().ended {
            1nat
        } else {
            0
        }
    }
}

/// Whether each end that was told is among the events, as far as their number goes.
spec fn counted(s: StreamView) -> bool {
    ended_count(s.partials) <= s.events.len()
}

proof fn lemma_count_on_insert(partials: Seq<PartialCallView>, at: int, call: PartialCallView)
    requires
        0 <= at <= partials.len(),
        !call.ended,
    ensures
        ended_count(partials.insert(at, call)) == ended_count(partials),
    decreases partials.len(),
{
    let longer = partials.insert(at, call);
    if at == partials.len() {
        assert(longer.drop_last() =~= partials);
    } else {
        lemma_count_on_insert(partials.drop_last(), at, call);
        assert(longer.drop_last() =~= partials.drop_last().insert(at, call));
        assert(longer.last() == partials.last());
    }
}

proof fn lemma_count_on_update(partials: Seq<PartialCallView>, at: int, call: PartialCallView)
    requires
        0 <= at < partials.len(),
    ensures
        ended_count(partials.update(at, call)) + (if partials[at].ended {
            1int
        } else {
            0
        }) == ended_count(partials) + (if call.ended {
            1int
        } else {
            0
        }),
    decreases partials.len(),
{
    let changed = partials.update(at, call);
    if at == partials.len() - 1 {
        assert(changed.drop_last() =~= partials.drop_last());
    } else {
        lemma_count_on_update(partials.drop_last(), at, call);
        assert(changed.drop_last() =~= partials.drop_last().update(at, call));
        assert(changed.last() == partials.last());
    }
}

proof fn lemma_count_of_all(partials: Seq<PartialCallView>)
    requires
        forall|i: int| 0 <= i < partials.len() ==> (#[trigger] partials[i]).ended,
    ensures
        ended_count(partials) == partials.len(),
    decreases partials.len(),
{
    if partials.len() > 0 {
        lemma_count_of_all(partials.drop_last());
    }
}

pub proof fn lemma_place(partials: Seq<PartialCallView>, output_index: u64, from: int)
    requires
        0 <= from <= partials.len(),
    ensures
        from <= place(partials, output_index, from) <= partials.len(),
        forall|i: int|
            from <= i < place(partials, output_index, from) ==> (#[trigger] partials[i]).output_index
                < output_index,
        place(partials, output_index, from) < partials.len() ==> partials[place(
            partials,
            output_index,
            from,
        )].output_index >= output_index,
    decreases partials.len() - from,
{
    if from < partials.len() && partials[from].output_index < output_index {
        lemma_place(partials, output_index, from + 1);
    }
}

impl Stream {
    fn tell(&mut self, event: AdapterStreamEvent)
        requires
            counted(old(self).deep_view()),
        ensures
            final(self).deep_view() == old(self).deep_view().telling(event.deep_view()),
            counted(final(self).deep_view()),
    {
        lists::push_item(&mut self.events, event);
    }

    /// Finds the call of an output item, and makes one where there is none.
    fn ensure_call(&mut self, output_index: u64) -> (r: usize)
        requires
            counted(old(self).deep_view()),
        ensures
            r == place(old(self).deep_view().partials, output_index, 0),
            r < final(self).deep_view().partials.len(),
            final(self).deep_view() == (StreamView {
                partials: with_call(old(self).deep_view().partials, output_index),
                ..old(self).deep_view()
            }),
            counted(final(self).deep_view()),
    {
        let ghost before = self.partials.deep_view();
        let mut at: usize = 0;
        while at < self.partials.len() && self.partials[at].output_index < output_index
            invariant
                at <= self.partials@.len(),
                before == self.partials.deep_view(),
                self.deep_view() == old(self).deep_view(),
                place(before, output_index, 0) == place(before, output_index, at as int),
            decreases self.partials@.len() - at,
        {
            assert(before[at as int] == self.partials@[at as int].deep_view());
            at += 1;
        }
        proof {
            if at < self.partials@.len() {
                assert(before[at as int] == self.partials@[at as int].deep_view());
            }
            assert(place(before, output_index, 0) == at);
        }
        if at == self.partials.len() || self.partials[at].output_index != output_index {
            let call = PartialCall {
                output_index,
                event_index: self.partials.len(),
                call_id: None,
                name: None,
                arguments: String::new(),
                ended: false,
            };
            proof {
                lemma_count_on_insert(before, at as int, call.deep_view());
                assert(call.deep_view() =~= unknown_call(output_index, before.len()));
            }
            self.partials.insert(at, call);
            assert(self.partials.deep_view() =~= before.insert(at as int, call.deep_view()));
        }
        at
    }

    /// Puts a call in the place of one of the same state.
    fn put_call(&mut self, at: usize, call: PartialCall)
        requires
            counted(old(self).deep_view()),
            at < old(self).deep_view().partials.len(),
            call.deep_view().ended == old(self).deep_view().partials[at as int].ended,
        ensures
            final(self).deep_view() == (StreamView {
                partials: old(self).deep_view().partials.update(at as int, call.deep_view()),
                ..old(self).deep_view()
            }),
            counted(final(self).deep_view()),
    {
        let ghost before = self.partials.deep_view();
        proof {
            lemma_count_on_update(before, at as int, call.deep_view());
        }
        self.partials.set(at, call);
        assert(self.partials.deep_view() =~= before.update(at as int, call.deep_view()));
    }

    /// A call as far as it is known.
    fn call_at(&self, at: usize) -> (r: PartialCall)
        requires
            at < self.deep_view().partials.len(),
        ensures
            r.deep_view() == self.deep_view().partials[at as int],
    {
        let call = &self.partials[at];
        PartialCall {
            output_index: call.output_index,
            event_index: call.event_index,
            call_id: call.call_id.clone(),
            name: call.name.clone(),
            arguments: call.arguments.clone(),
            ended: call.ended,
        }
    }

    /// Tells the end of a call, unless it was told before.
    fn end_call(&mut self, at: usize)
        requires
            counted(old(self).deep_view()),
            at < old(self).deep_view().partials.len(),
        ensures
            final(self).deep_view() == old(self).deep_view().ending(at as int),
            counted(final(self).deep_view()),
    {
        let ghost before = self.deep_view();
        let mut call = self.call_at(at);
        if call.ended {
            return;
        }
        let ghost known = call.deep_view();
        let id = match &call.call_id {
            Some(id) => id.clone(),
            None => synthesize_id(call.event_index),
        };
        let name = match &call.name {
            Some(name) => name.clone(),
            None => "".to_owned(),
        };
        let event = AdapterStreamEvent::ToolCallEnd {
            index: call.event_index,
            tool_call: ToolCall {
                id: id.clone(),
                name,
                arguments: parse_tool_arguments(call.arguments.as_str()),
            },
        };
        assert(event.deep_view() == end_of(known));
        call.ended = true;
        proof {
            lemma_count_on_update(before.partials, at as int, call.deep_view());
        }
        lists::push_item(&mut self.events, event);
        text::push_text(&mut self.emitted, id);
        self.partials.set(at, call);
        assert(self.partials.deep_view() =~= before.partials.update(at as int, call.deep_view()));
    }

    /// Tells the end of every call, unless it was told before.
    fn end_all_calls(&mut self)
        requires
            counted(old(self).deep_view()),
        ensures
            final(self).deep_view() == old(self).deep_view().ending_all(0),
            final(self).deep_view().partials.len() <= final(self).deep_view().events.len(),
    {
        let ghost target = self.deep_view().ending_all(0);
        let mut at: usize = 0;
        while at < self.partials.len()
            invariant
                at <= self.partials@.len(),
                counted(self.deep_view()),
                target == self.deep_view().ending_all(at as int),
                forall|i: int| 0 <= i < at ==> (#[trigger] self.deep_view().partials[i]).ended,
            decreases self.partials@.len() - at,
        {
            self.end_call(at);
            at += 1;
        }
        proof {
            lemma_count_of_all(self.deep_view().partials);
        }
    }

    /// Tells of the calls that only the complete response holds.
    fn tell_missing_calls(&mut self, calls: Vec<ToolCall>)
        requires
            old(self).deep_view().partials.len() <= old(self).deep_view().events.len(),
        ensures
            final(self).deep_view().events == old(self).deep_view().events + missing_calls(
                calls.deep_view(),
                old(self).deep_view().emitted,
                old(self).deep_view().partials.len(),
                0,
            ),
    {
        let ghost all = calls.deep_view();
        let ghost target = self.deep_view().events + missing_calls(
            all,
            self.deep_view().emitted,
            self.deep_view().partials.len(),
            0,
        );
        let mut next: usize = self.partials.len();
        let mut i: usize = 0;
        while i < calls.len()
            invariant
                i <= calls@.len(),
                all == calls.deep_view(),
                next <= self.deep_view().events.len(),
                target == self.deep_view().events + missing_calls(
                    all,
                    self.deep_view().emitted,
                    next as nat,
                    i as int,
                ),
            decreases calls@.len() - i,
        {
            let call = &calls[i];
            assert(call.deep_view() == all[i as int]);
            if !text::holds(&self.emitted, call.id.as_str()) {
                let ghost before = self.deep_view();
                text::push_text(&mut self.emitted, call.id.clone());
                lists::push_item(
                    &mut self.events,
                    AdapterStreamEvent::ToolCallStart {
                        index: next,
                        id: Some(call.id.clone()),
                        name: Some(call.name.clone()),
                    },
                );
                lists::push_item(
                    &mut self.events,
                    AdapterStreamEvent::ToolCallEnd { index: next, tool_call: call.clone() },
                );
                assert(self.deep_view().events =~= before.events + whole_call(
                    all[i as int],
                    next as nat,
                ));
                assert(self.events@.len() == before.events.len() + 2);
                assert(target =~= self.deep_view().events + missing_calls(
                    all,
                    self.deep_view().emitted,
                    (next + 1) as nat,
                    i + 1,
                ));
                assert(next < usize::MAX) by {
                    assert(self.events.len() >= next + 2);
                }
                next += 1;
            }
            i += 1;
        }
        assert(self.deep_view().events =~= target);
    }

    /// Tells all that a complete response adds, and the end of the stream.
    fn complete(&mut self, result: AdapterResult)
        requires
            counted(old(self).deep_view()),
        ensures
            final(self).deep_view().events == completed(old(self).deep_view(), result.deep_view()),
    {
        self.end_all_calls();
        let calls = match result.tool_calls {
            Some(calls) => calls,
            None => lists::no_items(),
        };
        self.tell_missing_calls(calls);
        push_usage(
            &mut self.events,
            result.input_tokens,
            result.output_tokens,
            result.cached_input_tokens,
            result.reasoning_tokens,
        );
        lists::push_item(
            &mut self.events,
            AdapterStreamEvent::Finish {
                finish_reason: result.finish_reason,
                reasoning: result.reasoning,
            },
        );
    }

    /// Takes in an event. Where it ends the stream, says how: with the events told, or an error.
    fn take_event(&mut self, event: &Value) -> (r: Option<Result<(), PriestError>>)
        requires
            counted(old(self).deep_view()),
        ensures
            match r {
                None => step(old(self).deep_view(), json_view(*event)) == StreamStep::Continue(
                    final(self).deep_view(),
                ) && counted(final(self).deep_view()),
                Some(Ok(_)) => step(old(self).deep_view(), json_view(*event)) == StreamStep::Stop(
                    Ok(final(self).deep_view().events),
                ),
                Some(Err(e)) => step(old(self).deep_view(), json_view(*event))
                    == StreamStep::Stop(Err(e.deep_view())),
            },
    {
        let ghost before = self.deep_view();
        let ghost value = json_view(*event);
        if json::text_at_is(event, "type", "response.output_text.delta") {
            if let Some(t) = json::text_at(event, "delta") {
                if !t.as_str().is_empty() {
                    self.tell(AdapterStreamEvent::TextDelta { text: t });
                }
            }
            None
        } else if json::text_at_is(event, "type", "response.reasoning_summary_text.delta") {
            if let Some(t) = json::text_at(event, "delta") {
                if !t.as_str().is_empty() {
                    self.tell(AdapterStreamEvent::ReasoningSummaryDelta { text: t });
                }
            }
            None
        } else if json::text_at_is(event, "type", "response.output_item.added")
            && json::text_at_is(json::at(event, "item"), "type", "function_call") {
            self.call_added(event);
            None
        } else if json::text_at_is(event, "type", "response.function_call_arguments.delta") {
            self.arguments_delta(event);
            None
        } else if json::text_at_is(event, "type", "response.function_call_arguments.done") {
            self.arguments_done(event);
            None
        } else if json::text_at_is(event, "type", "response.output_item.done")
            && json::text_at_is(json::at(event, "item"), "type", "function_call") {
            self.call_done(event);
            None
        } else if json::text_at_is(event, "type", "response.completed") {
            match parse_response(json::at(event, "response")) {
                Ok(result) => {
                    self.complete(result);
                    Some(Ok(()))
                },
                Err(e) => Some(Err(e)),
            }
        } else if json::text_at_is(event, "type", "response.failed") || json::text_at_is(
            event,
            "type",
            "response.cancelled",
        ) {
            Some(Err(response_error(json::at(event, "response"))))
        } else if json::text_at_is(event, "type", "error") {
            let message = match json::text_at(event, "message") {
                Some(message) => message,
                None => json::compact(event),
            };
            Some(Err(provider_error(message.as_str())))
        } else {
            None
        }
    }

    fn tell_of_item(&mut self, at: usize, item: &Value)
        requires
            counted(old(self).deep_view()),
            at < old(self).deep_view().partials.len(),
        ensures
            final(self).deep_view() == (StreamView {
                partials: old(self).deep_view().partials.update(
                    at as int,
                    told_by(old(self).deep_view().partials[at as int], json_view(*item)),
                ),
                ..old(self).deep_view()
            }),
            counted(final(self).deep_view()),
    {
        let mut call = self.call_at(at);
        if let Some(id) = json::text_at(item, "call_id") {
            call.call_id = Some(id);
        }
        if let Some(name) = json::text_at(item, "name") {
            call.name = Some(name);
        }
        if let Some(arguments) = json::text_at(item, "arguments") {
            call.arguments = arguments;
        }
        self.put_call(at, call);
    }

    fn call_added(&mut self, event: &Value)
        requires
            counted(old(self).deep_view()),
        ensures
            final(self).deep_view() == on_added(old(self).deep_view(), json_view(*event)),
            counted(final(self).deep_view()),
    {
        let index: u64 = match json::at(event, "output_index").as_u64() {
            Some(n) => n,
            None => self.partials.len() as u64,
        };
        let at = self.ensure_call(index);
        self.tell_of_item(at, json::at(event, "item"));
        let call = self.call_at(at);
        self.tell(
            AdapterStreamEvent::ToolCallStart {
                index: call.event_index,
                id: call.call_id,
                name: call.name,
            },
        );
    }

    fn arguments_delta(&mut self, event: &Value)
        requires
            counted(old(self).deep_view()),
        ensures
            final(self).deep_view() == on_arguments_delta(old(self).deep_view(), json_view(*event)),
            counted(final(self).deep_view()),
    {
        let index: u64 = match json::at(event, "output_index").as_u64() {
            Some(n) => n,
            None => 0,
        };
        let at = self.ensure_call(index);
        if let Some(delta) = json::text_at(event, "delta") {
            if !delta.as_str().is_empty() {
                let mut call = self.call_at(at);
                call.arguments.append(delta.as_str());
                let event_index = call.event_index;
                self.put_call(at, call);
                self.tell(
                    AdapterStreamEvent::ToolCallDelta {
                        index: event_index,
                        arguments_delta: delta,
                    },
                );
            }
        }
    }

    fn arguments_done(&mut self, event: &Value)
        requires
            counted(old(self).deep_view()),
        ensures
            final(self).deep_view() == on_arguments_done(old(self).deep_view(), json_view(*event)),
            counted(final(self).deep_view()),
    {
        let index: u64 = match json::at(event, "output_index").as_u64() {
            Some(n) => n,
            None => 0,
        };
        let at = self.ensure_call(index);
        let mut call = self.call_at(at);
        if let Some(arguments) = json::text_at(event, "arguments") {
            call.arguments = arguments;
        }
        if let Some(name) = json::text_at(event, "name") {
            call.name = Some(name);
        }
        self.put_call(at, call);
        self.end_call(at);
    }

    fn call_done(&mut self, event: &Value)
        requires
            counted(old(self).deep_view()),
        ensures
            final(self).deep_view() == on_call_done(old(self).deep_view(), json_view(*event)),
            counted(final(self).deep_view()),
    {
        let index: u64 = match json::at(event, "output_index").as_u64() {
            Some(n) => n,
            None => 0,
        };
        let at = self.ensure_call(index);
        self.tell_of_item(at, json::at(event, "item"));
        self.end_call(at);
    }
}

/// Reads the values of a stream as structured events.
pub fn read_stream(values: &Vec<Value>) -> (r: Result<Vec<AdapterStreamEvent>, PriestError>)
    ensures
        result_view(r) == events_in(list_view(values@)),
{
    let mut stream = Stream {
        events: lists::no_items(),
        partials: lists::no_items(),
        emitted: lists::no_items(),
    };
    let ghost all = list_view(values@);
    let ghost target = events_in(all);
    let mut i: usize = 0;
    assert(counted(stream.deep_view()));
    while i < values.len()
        invariant
            i <= values@.len(),
            all == list_view(values@),
            counted(stream.deep_view()),
            target == events_in(all),
            target == read_on(stream.deep_view(), all, i as int),
        decreases values@.len() - i,
    {
        assert(all[i as int] == json_view(values@[i as int]));
        match stream.take_event(&values[i]) {
            None => {},
            Some(Ok(_)) => {
                return Ok(stream.events);
            },
            Some(Err(e)) => {
                return Err(e);
            },
        }
        i += 1;
    }
    let reason = if stream.partials.len() == 0 {
        "stop"
    } else {
        "tool_calls"
    };
    stream.end_all_calls();
    lists::push_item(
        &mut stream.events,
        AdapterStreamEvent::Finish { finish_reason: Some(reason.to_owned()), reasoning: None },
    );
    Ok(stream.events)
}

/// Reads the body of a streamed answer as structured events.
pub fn parse_sse_events(body: &str) -> (r: Result<Vec<AdapterStreamEvent>, PriestError>)
    ensures
        result_view(r) == events_in(values_from(data_of(body@), 0)),
{
    read_stream(&read_values(&sse_data(body)))
}

/// What an HTTP answer to a streamed request amounts to: a refusal is an error that tells status
/// and body, any other body is read as a stream.
pub open spec fn streamed_answer(
    status: u16,
    status_text: Seq<char>,
    body: Seq<char>,
) -> Result<Seq<AdapterStreamEventView>, PriestErrorView> {
    if !is_success(status) {
        Err(failure("HTTP "@ + status_text + ": "@ + body))
    } else {
        events_in(values_from(data_of(body), 0))
    }
}

/// Reads an HTTP answer to a streamed request. The status is given as its number and as its text.
pub fn read_streamed_answer(status: u16, status_text: &str, body: &str) -> (r: Result<
    Vec<AdapterStreamEvent>,
    PriestError,
>)
    ensures
        result_view(r) == streamed_answer(status, status_text@, body@),
{
    if status < 200 || status >= 300 {
        return Err(refusal(status_text, body));
    }
    parse_sse_events(body)
}

// ---- Laws ----

/// Whether the end of the call with an index was told.
pub open spec fn is_ended(partials: Seq<PartialCallView>, index: nat) -> bool {
    exists|i: int|
        0 <= i < partials.len() && (#[trigger] partials[i]).ended && partials[i].event_index
            == index
}

/// The ids of the calls whose end is told, in the order of the events.
pub open spec fn ended_ids(events: Seq<AdapterStreamEventView>) -> Seq<Seq<char>>
    decreases events.len(),
{
    if events.len() == 0 {
        Seq::empty()
    } else {
        let before = ended_ids(events.drop_last());
        match events.last() {
            AdapterStreamEventView::ToolCallEnd { tool_call, .. } => before.push(tool_call.id),
            _ => before,
        }
    }
}

/// What holds of a stream however far it was read: there is one call for an output item, in the
/// order of the items; the calls are numbered without gaps; an end was told only of calls that are
/// marked so, once for each, and its id was noted; and the stream's end was not told.
pub open spec fn consistent(s: StreamView) -> bool {
    &&& forall|i: int, j: int|
        0 <= i < j < s.partials.len() ==> (#[trigger] s.partials[i]).output_index < (
        #[trigger] s.partials[j]).output_index
    &&& forall|i: int|
        0 <= i < s.partials.len() ==> (#[trigger] s.partials[i]).event_index < s.partials.len()
    &&& forall|i: int, j: int|
        0 <= i < j < s.partials.len() ==> (#[trigger] s.partials[i]).event_index != (
        #[trigger] s.partials[j]).event_index
    &&& forall|k: int|
        0 <= k < s.events.len() && #[trigger] s.events[k] is ToolCallEnd ==> is_ended(
            s.partials,
            s.events[k]->ToolCallEnd_index,
        )
    &&& ends_once(s.events)
    &&& unfinished(s.events)
    &&& s.emitted == ended_ids(s.events)
}

proof fn lemma_with_call(s: StreamView, output_index: u64)
    requires
        consistent(s),
    ensures
        consistent(StreamView { partials: with_call(s.partials, output_index), ..s }),
        0 <= place(s.partials, output_index, 0) < with_call(s.partials, output_index).len(),
{
    let at = place(s.partials, output_index, 0);
    lemma_place(s.partials, output_index, 0);
    let after = with_call(s.partials, output_index);
    if after != s.partials {
        assert forall|i: int| 0 <= i < after.len() implies (#[trigger] after[i]).event_index
            < after.len() by {
            if i < at {
                assert(after[i] == s.partials[i]);
            } else if i > at {
                assert(after[i] == s.partials[i - 1]);
            }
        }
        assert forall|i: int, j: int| 0 <= i < j < after.len() implies (
        #[trigger] after[i]).output_index < (#[trigger] after[j]).output_index
            && after[i].event_index != after[j].event_index by {
            let old_i = if i < at {
                i
            } else {
                i - 1
            };
            let old_j = if j < at {
                j
            } else {
                j - 1
            };
            if i != at {
                assert(after[i] == s.partials[old_i]);
            }
            if j != at {
                assert(after[j] == s.partials[old_j]);
            }
            if i == at && at < s.partials.len() {
                assert(s.partials[at].output_index > output_index);
            }
        }
        assert forall|k: int| 0 <= k < s.events.len() && #[trigger] s.events[k] is ToolCallEnd
            implies is_ended(after, s.events[k]->ToolCallEnd_index) by {
            let index = s.events[k]->ToolCallEnd_index;
            let i = choose|i: int|
                0 <= i < s.partials.len() && (#[trigger] s.partials[i]).ended
                    && s.partials[i].event_index == index;
            assert(after[if i < at {
                i
            } else {
                i + 1
            }] == s.partials[i]);
        }
    }
}

proof fn lemma_put_call(s: StreamView, at: int, call: PartialCallView)
    requires
        consistent(s),
        0 <= at < s.partials.len(),
        call.output_index == s.partials[at].output_index,
        call.event_index == s.partials[at].event_index,
        s.partials[at].ended ==> call.ended,
    ensures
        consistent(StreamView { partials: s.partials.update(at, call), ..s }),
{
    let after = s.partials.update(at, call);
    assert forall|k: int| 0 <= k < s.events.len() && #[trigger] s.events[k] is ToolCallEnd
        implies is_ended(after, s.events[k]->ToolCallEnd_index) by {
        let index = s.events[k]->ToolCallEnd_index;
        let i = choose|i: int|
            0 <= i < s.partials.len() && (#[trigger] s.partials[i]).ended
                && s.partials[i].event_index == index;
        assert(after[i].ended && after[i].event_index == index);
    }
}

proof fn lemma_ended_ids_push(events: Seq<AdapterStreamEventView>, event: AdapterStreamEventView)
    ensures
        ended_ids(events.push(event)) == match event {
            AdapterStreamEventView::ToolCallEnd { tool_call, .. } => ended_ids(events).push(
                tool_call.id,
            ),
            _ => ended_ids(events),
        },
{
    assert(events.push(event).drop_last() =~= events);
}

proof fn lemma_telling(s: StreamView, event: AdapterStreamEventView)
    requires
        consistent(s),
        !(event is ToolCallEnd),
        !(event is Finish),
    ensures
        consistent(s.telling(event)),
{
    lemma_ended_ids_push(s.events, event);
    let after = s.telling(event).events;
    assert(forall|k: int| 0 <= k < s.events.len() ==> after[k] == s.events[k]);
}

proof fn lemma_ending(s: StreamView, at: int)
    requires
        consistent(s),
        0 <= at < s.partials.len(),
    ensures
        consistent(s.ending(at)),
        s.ending(at).partials.len() == s.partials.len(),
{
    let call = s.partials[at];
    if !call.ended {
        let marked = PartialCallView { ended: true, ..call };
        lemma_put_call(s, at, marked);
        lemma_ended_ids_push(s.events, end_of(call));
        let after = s.ending(at);
        assert(after.partials[at].ended);
        assert forall|j: int| 0 <= j < s.events.len() && #[trigger] s.events[j] is ToolCallEnd
            implies s.events[j]->ToolCallEnd_index != call.event_index by {
            let index = s.events[j]->ToolCallEnd_index;
            let i = choose|i: int|
                0 <= i < s.partials.len() && (#[trigger] s.partials[i]).ended
                    && s.partials[i].event_index == index;
            assert(i != at);
        }
        assert forall|k: int|
            0 <= k < after.events.len() && #[trigger] after.events[k] is ToolCallEnd
            implies is_ended(after.partials, after.events[k]->ToolCallEnd_index) by {
            if k < s.events.len() {
                assert(after.events[k] == s.events[k]);
            }
        }
        assert forall|j: int, k: int|
            0 <= j < k < after.events.len() && #[trigger] after.events[j] is ToolCallEnd
                && #[trigger] after.events[k] is ToolCallEnd
            implies after.events[j]->ToolCallEnd_index != after.events[k]->ToolCallEnd_index by {
            assert(after.events[j] == s.events[j]);
            if k < s.events.len() {
                assert(after.events[k] == s.events[k]);
            }
        }
    }
}

proof fn lemma_ending_all(s: StreamView, from: int)
    requires
        consistent(s),
        0 <= from <= s.partials.len(),
    ensures
        consistent(s.ending_all(from)),
        s.ending_all(from).partials.len() == s.partials.len(),
    decreases s.partials.len() - from,
{
    if from < s.partials.len() {
        lemma_ending(s, from);
        lemma_ending_all(s.ending(from), from + 1);
    }
}

/// Reading an event keeps a stream consistent.
pub proof fn law_step_keeps_consistency(s: StreamView, event: Json)
    requires
        consistent(s),
    ensures
        step(s, event) matches StreamStep::Continue(next) ==> consistent(next),
{
    let added = output_index(event, s.partials.len() as u64);
    let other = output_index(event, 0);
    lemma_with_call(s, added);
    lemma_with_call(s, other);
    if is_of(event, "response.output_text.delta"@) {
        if let Some(text) = text(member(event, "delta"@)) {
            lemma_telling(s, AdapterStreamEventView::TextDelta { text });
        }
    } else if is_of(event, "response.reasoning_summary_text.delta"@) {
        if let Some(text) = text(member(event, "delta"@)) {
            lemma_telling(s, AdapterStreamEventView::ReasoningSummaryDelta { text });
        }
    } else if is_of(event, "response.output_item.added"@) && is_about_call(event) {
        let at = place(s.partials, added, 0);
        let found = StreamView { partials: with_call(s.partials, added), ..s };
        let call = told_by(found.partials[at], member(event, "item"@));
        lemma_put_call(found, at, call);
        lemma_telling(
            StreamView { partials: found.partials.update(at, call), ..s },
            AdapterStreamEventView::ToolCallStart {
                index: call.event_index,
                id: call.call_id,
                name: call.name,
            },
        );
    } else {
        let at = place(s.partials, other, 0);
        let found = StreamView { partials: with_call(s.partials, other), ..s };
        if is_of(event, "response.function_call_arguments.delta"@) {
            if let Some(delta) = text(member(event, "delta"@)) {
                let call = PartialCallView {
                    arguments: found.partials[at].arguments + delta,
                    ..found.partials[at]
                };
                lemma_put_call(found, at, call);
                lemma_telling(
                    StreamView { partials: found.partials.update(at, call), ..s },
                    AdapterStreamEventView::ToolCallDelta {
                        index: call.event_index,
                        arguments_delta: delta,
                    },
                );
            }
        } else if is_of(event, "response.function_call_arguments.done"@) {
            let call = PartialCallView {
                arguments: match text(member(event, "arguments"@)) {
                    Some(arguments) => arguments,
                    None => found.partials[at].arguments,
                },
                name: match text(member(event, "name"@)) {
                    Some(name) => Some(name),
                    None => found.partials[at].name,
                },
                ..found.partials[at]
            };
            lemma_put_call(found, at, call);
            lemma_ending(StreamView { partials: found.partials.update(at, call), ..s }, at);
        } else if is_of(event, "response.output_item.done"@) && is_about_call(event) {
            let call = told_by(found.partials[at], member(event, "item"@));
            lemma_put_call(found, at, call);
            lemma_ending(StreamView { partials: found.partials.update(at, call), ..s }, at);
        }
    }
}

proof fn lemma_missing_calls(
    calls: Seq<ToolCallView>,
    emitted: Seq<Seq<char>>,
    next: nat,
    from: int,
)
    requires
        0 <= from,
    ensures
        ({
            let events = missing_calls(calls, emitted, next, from);
            &&& unfinished(events)
            &&& ends_once(events)
            &&& forall|k: int|
                0 <= k < events.len() && #[trigger] events[k] is ToolCallEnd ==> {
                    &&& events[k]->ToolCallEnd_index >= next
                    &&& !emitted.contains(events[k]->ToolCallEnd_tool_call.id)
                }
            &&& forall|i: int|
                from <= i < calls.len() ==> emitted.contains((#[trigger] calls[i]).id)
                    || tells_end_of(events, calls[i])
        }),
    decreases calls.len() - from,
{
    if from < calls.len() {
        if emitted.contains(calls[from].id) {
            lemma_missing_calls(calls, emitted, next, from + 1);
        } else {
            let more = emitted.push(calls[from].id);
            lemma_missing_calls(calls, more, next + 1, from + 1);
            let rest = missing_calls(calls, more, next + 1, from + 1);
            let events = missing_calls(calls, emitted, next, from);
            assert(events[1] == AdapterStreamEventView::ToolCallEnd {
                index: next,
                tool_call: calls[from],
            });
            assert forall|id: Seq<char>| emitted.contains(id) implies more.contains(id) by {
                let k = choose|k: int| 0 <= k < emitted.len() && emitted[k] == id;
                assert(more[k] == id);
            }
            assert(forall|k: int| 2 <= k < events.len() ==> events[k] == rest[k - 2]);
            assert forall|i: int| from <= i < calls.len() implies emitted.contains(
                (#[trigger] calls[i]).id,
            ) || tells_end_of(events, calls[i]) by {
                if i == from {
                    assert(events[1]->ToolCallEnd_tool_call == calls[i]);
                } else if tells_end_of(rest, calls[i]) {
                    let k = choose|k: int|
                        0 <= k < rest.len() && #[trigger] rest[k] is ToolCallEnd
                            && rest[k]->ToolCallEnd_tool_call.id == calls[i].id;
                    assert(events[k + 2] == rest[k]);
                } else if !emitted.contains(calls[i].id) {
                    let k = choose|k: int| 0 <= k < more.len() && more[k] == calls[i].id;
                    assert(k == emitted.len()) by {
                        if k < emitted.len() {
                            assert(emitted[k] == calls[i].id);
                        }
                    }
                    assert(events[1]->ToolCallEnd_tool_call.id == calls[i].id);
                }
            }
        }
    }
}

/// Whether an event tells the end of a call with the id of `call`.
pub open spec fn tells_end_of(events: Seq<AdapterStreamEventView>, call: ToolCallView) -> bool {
    exists|k: int|
        0 <= k < events.len() && #[trigger] events[k] is ToolCallEnd
            && events[k]->ToolCallEnd_tool_call.id == call.id
}

proof fn lemma_ended_ids(events: Seq<AdapterStreamEventView>, id: Seq<char>)
    requires
        ended_ids(events).contains(id),
    ensures
        exists|k: int|
            0 <= k < events.len() && #[trigger] events[k] is ToolCallEnd
                && events[k]->ToolCallEnd_tool_call.id == id,
    decreases events.len(),
{
    if events.len() > 0 {
        let before = ended_ids(events.drop_last());
        let n = choose|n: int| 0 <= n < ended_ids(events).len() && ended_ids(events)[n] == id;
        if n < before.len() {
            assert(before[n] == id);
            lemma_ended_ids(events.drop_last(), id);
            let k = choose|k: int|
                0 <= k < events.drop_last().len() && #[trigger] events.drop_last()[k]
                    is ToolCallEnd && events.drop_last()[k]->ToolCallEnd_tool_call.id == id;
            assert(events[k] is ToolCallEnd);
        } else {
            assert(events[events.len() - 1] is ToolCallEnd);
        }
    }
}

/// The events of a completed stream tell the end of every call that the complete response lists,
/// and of no call twice: of those listed calls whose end was told already nothing is told again.
pub proof fn law_completed_calls(s: StreamView, result: AdapterResultView)
    requires
        consistent(s),
    ensures
        ends_once(completed(s, result)),
        forall|i: int|
            0 <= i < calls_of(result).len() ==> tells_end_of(
                completed(s, result),
                #[trigger] calls_of(result)[i],
            ),
        forall|k: int|
            s.ending_all(0).events.len() <= k < completed(s, result).len() && (
            #[trigger] completed(s, result)[k]) is ToolCallEnd ==> !ended_ids(
                s.ending_all(0).events,
            ).contains(completed(s, result)[k]->ToolCallEnd_tool_call.id),
{
    lemma_ending_all(s, 0);
    let ended = s.ending_all(0);
    let calls = calls_of(result);
    let missing = missing_calls(calls, ended.emitted, ended.partials.len(), 0);
    lemma_missing_calls(calls, ended.emitted, ended.partials.len(), 0);
    let events = completed(s, result);
    let n = ended.events.len() as int;
    assert(forall|k: int| 0 <= k < n ==> events[k] == ended.events[k]);
    assert(forall|k: int| n <= k < n + missing.len() ==> events[k] == missing[k - n]);
    assert(forall|k: int| n + missing.len() <= k < events.len() ==> !(events[k] is ToolCallEnd));
    assert forall|k: int| 0 <= k < n && #[trigger] ended.events[k] is ToolCallEnd implies
        ended.events[k]->ToolCallEnd_index < ended.partials.len() by {
        let index = ended.events[k]->ToolCallEnd_index;
        let i = choose|i: int|
            0 <= i < ended.partials.len() && (#[trigger] ended.partials[i]).ended
                && ended.partials[i].event_index == index;
        assert(ended.partials[i].event_index < ended.partials.len());
    }
    assert forall|i: int| 0 <= i < calls.len() implies tells_end_of(events, #[trigger] calls[i]) by {
        if ended.emitted.contains(calls[i].id) {
            lemma_ended_ids(ended.events, calls[i].id);
            let k = choose|k: int|
                0 <= k < ended.events.len() && #[trigger] ended.events[k] is ToolCallEnd
                    && ended.events[k]->ToolCallEnd_tool_call.id == calls[i].id;
            assert(events[k] == ended.events[k]);
        } else {
            let k = choose|k: int|
                0 <= k < missing.len() && #[trigger] missing[k] is ToolCallEnd
                    && missing[k]->ToolCallEnd_tool_call.id == calls[i].id;
            assert(events[n + k] == missing[k]);
        }
    }
}

proof fn lemma_read_on(s: StreamView, values: Seq<Json>, from: int)
    requires
        consistent(s),
        0 <= from,
    ensures
        read_on(s, values, from) matches Ok(events) ==> well_ended(events),
    decreases values.len() - from,
{
    lemma_ending_all(s, 0);
    let ended = s.ending_all(0);
    if from >= values.len() {
        let events = broken_off(s);
        assert(events.drop_last() =~= ended.events);
    } else {
        law_step_keeps_consistency(s, values[from]);
        match step(s, values[from]) {
            StreamStep::Continue(next) => {
                lemma_read_on(next, values, from + 1);
            },
            StreamStep::Stop(Ok(events)) => {
                let result = result_of(member(values[from], "response"@))->Ok_0;
                law_completed_calls(s, result);
                lemma_missing_calls(calls_of(result), ended.emitted, ended.partials.len(), 0);
                assert(events == completed(s, result));
                assert(events.drop_last() =~= ended.events + missing_calls(
                    calls_of(result),
                    ended.emitted,
                    ended.partials.len(),
                    0,
                ) + usage_of_result(result));
            },
            StreamStep::Stop(Err(_)) => {},
        }
    }
}

/// A stream that tells of no error ends with exactly one finish event, and the end of no call is
/// told twice.
pub proof fn law_streams_are_well_ended(values: Seq<Json>)
    ensures
        events_in(values) matches Ok(events) ==> well_ended(events),
{
    lemma_read_on(unread(), values, 0);
}

} // verus!
