//! Reads a streamed answer of the Messages API.

use super::content::{block_of, finish_of, map_stop, parse_reasoning, read_block, reasoning_of};
use super::content::{AnthropicContent, AnthropicContentView};
use crate::indexed;
use crate::indexed::{holds_number, item_of, law_put, law_taken, ordered, with_item, without};
use crate::json;
use crate::json::{
    json_of_text, json_view, member, members, object_view, text, unsigned, unsigned_32, Json,
};
use crate::lists;
use crate::providers::adapter::{
    ends_once, push_usage, unfinished, usage_event, well_ended, AdapterStreamEvent,
    AdapterStreamEventView,
};
use crate::providers::sse;
use crate::providers::sse::body_contents;
use crate::schema::tools::{
    arguments_in_text, parse_tool_arguments, synthesize_id, synthesized_id, ToolCall, ToolCallView,
};
use crate::text;
use crate::text::{line_texts, trimmed, utf8_lossy, without_prefix};
use serde_json::Value;
use vstd::prelude::*;

verus! {

// ---- From the body to values ----

/// What frames hold: an event name and a value each.
pub open spec fn frames_view(frames: Seq<(String, Value)>) -> Seq<(Seq<char>, Json)> {
    Seq::new(frames.len(), |i: int| (frames[i].0@, json_view(frames[i].1)))
}

/// The frames whose data is JSON, each with the value that it stands for.
pub open spec fn valued(contents: Seq<(Seq<char>, Seq<char>)>) -> Seq<(Seq<char>, Json)>
    decreases contents.len(),
{
    if contents.len() == 0 {
        Seq::empty()
    } else {
        let before = valued(contents.drop_last());
        match json_of_text(contents.last().1) {
            Ok(value) => before.push((contents.last().0, value)),
            Err(_) => before,
        }
    }
}

/// The frames of a body whose data is JSON, each with its event name and value.
pub fn sse_frames(body: &str) -> (r: Vec<(String, Value)>)
    ensures
        frames_view(r@) == valued(body_contents(body@)),
{
    let contents = sse::event_frames(body);
    let ghost all = contents.deep_view();
    let mut r: Vec<(String, Value)> = Vec::new();
    let mut i: usize = 0;
    assert(frames_view(r@) =~= valued(all.take(0)));
    while i < contents.len()
        invariant
            i <= contents@.len(),
            all == contents.deep_view(),
            frames_view(r@) == valued(all.take(i as int)),
        decreases contents@.len() - i,
    {
        proof {
            assert(all.take(i + 1).drop_last() == all.take(i as int));
            assert(all.take(i + 1).last() == contents@[i as int].deep_view());
        }
        let ghost before = frames_view(r@);
        if let Ok(value) = json::parse(contents[i].1.as_str()) {
            let name = contents[i].0.clone();
            r.push((name, value));
            assert(frames_view(r@) =~= before.push((name@, json_view(value))));
        }
        i += 1;
    }
    assert(all.take(i as int) == all);
    r
}

// ---- One event after the other ----

/// A tool call whose arguments are still coming in.
pub struct StreamingToolCallView {
    /// Which call of the stream it is.
    pub event_index: nat,
    pub id: Option<Seq<char>>,
    pub name: Option<Seq<char>>,
    pub arguments: Seq<char>,
}

struct StreamingToolCall {
    event_index: usize,
    id: Option<String>,
    name: Option<String>,
    arguments: String,
}

impl DeepView for StreamingToolCall {
    type V = StreamingToolCallView;

    closed spec fn deep_view(&self) -> StreamingToolCallView {
        StreamingToolCallView {
            event_index: self.event_index as nat,
            id: self.id.deep_view(),
            name: self.name.deep_view(),
            arguments: self.arguments@,
        }
    }
}

struct ThinkingBlock {
    members: serde_json::Map<String, Value>,
}

impl DeepView for ThinkingBlock {
    type V = Map<Seq<char>, Json>;

    closed spec fn deep_view(&self) -> Map<Seq<char>, Json> {
        object_view(self.members)
    }
}

/// How far a stream was read.
pub struct StreamView {
    /// The events told so far.
    pub events: Seq<AdapterStreamEventView>,
    /// The tool calls that are still open, by content block.
    pub tools: Seq<(u64, StreamingToolCallView)>,
    /// The members of the thinking blocks, by content block.
    pub thinking: Seq<(u64, Map<Seq<char>, Json>)>,
    /// How many tool calls were started.
    pub tool_count: nat,
    pub stop_reason: Option<Seq<char>>,
    pub input_tokens: Option<u32>,
    pub output_tokens: Option<u32>,
    pub cached_input_tokens: Option<u32>,
    pub reasoning_tokens: Option<u32>,
}

/// A stream of which nothing was read.
pub open spec fn unread() -> StreamView {
    StreamView {
        events: Seq::empty(),
        tools: Seq::empty(),
        thinking: Seq::empty(),
        tool_count: 0,
        stop_reason: None,
        input_tokens: None,
        output_tokens: None,
        cached_input_tokens: None,
        reasoning_tokens: None,
    }
}

/// What the start of a content block leads to.
pub open spec fn on_block_start(s: StreamView, index: u64, block: Json) -> StreamView {
    let kind = member(block, "type"@);
    if kind == Json::Text("tool_use"@) {
        let call = StreamingToolCallView {
            event_index: s.tool_count,
            id: text(member(block, "id"@)),
            name: text(member(block, "name"@)),
            arguments: Seq::empty(),
        };
        StreamView {
            events: s.events.push(
                AdapterStreamEventView::ToolCallStart {
                    index: call.event_index,
                    id: call.id,
                    name: call.name,
                },
            ),
            tools: with_item(s.tools, index, call),
            tool_count: s.tool_count + 1,
            ..s
        }
    } else if kind == Json::Text("thinking"@) || kind == Json::Text("redacted_thinking"@) {
        StreamView { thinking: with_item(s.thinking, index, members(block)), ..s }
    } else {
        s
    }
}

/// Members with a piece of text added to one of them.
pub open spec fn lengthened(
    block: Map<Seq<char>, Json>,
    key: Seq<char>,
    piece: Seq<char>,
) -> Map<Seq<char>, Json> {
    let so_far = match text(member(Json::Object(block), key)) {
        Some(t) => t,
        None => Seq::empty(),
    };
    block.insert(key, Json::Text(so_far + piece))
}

/// The thinking blocks with a piece of text added to a member of one of them, if it is there.
pub open spec fn with_piece(
    thinking: Seq<(u64, Map<Seq<char>, Json>)>,
    index: u64,
    key: Seq<char>,
    piece: Seq<char>,
) -> Seq<(u64, Map<Seq<char>, Json>)> {
    if holds_number(thinking, index) {
        with_item(thinking, index, lengthened(item_of(thinking, index), key, piece))
    } else {
        thinking
    }
}

/// What a piece of arguments leads to.
pub open spec fn on_arguments(s: StreamView, index: u64, fragment: Seq<char>) -> StreamView {
    if holds_number(s.tools, index) && fragment.len() > 0 {
        let call = item_of(s.tools, index);
        StreamView {
            events: s.events.push(
                AdapterStreamEventView::ToolCallDelta {
                    index: call.event_index,
                    arguments_delta: fragment,
                },
            ),
            tools: with_item(
                s.tools,
                index,
                StreamingToolCallView { arguments: call.arguments + fragment, ..call },
            ),
            ..s
        }
    } else {
        s
    }
}

/// What a piece of a content block leads to.
pub open spec fn on_block_delta(s: StreamView, value: Json) -> StreamView {
    let delta = member(value, "delta"@);
    let kind = member(delta, "type"@);
    let index = unsigned(member(value, "index"@));
    if kind == Json::Text("text_delta"@) {
        match text(member(delta, "text"@)) {
            Some(text) if text.len() > 0 => StreamView {
                events: s.events.push(AdapterStreamEventView::TextDelta { text }),
                ..s
            },
            _ => s,
        }
    } else if kind == Json::Text("thinking_delta"@) {
        match (index, text(member(delta, "thinking"@))) {
            (Some(index), Some(text)) if text.len() > 0 => StreamView {
                events: s.events.push(AdapterStreamEventView::ReasoningSummaryDelta { text }),
                thinking: with_piece(s.thinking, index, "thinking"@, text),
                ..s
            },
            _ => s,
        }
    } else if kind == Json::Text("signature_delta"@) {
        match (index, text(member(delta, "signature"@))) {
            (Some(index), Some(signature)) => StreamView {
                thinking: with_piece(s.thinking, index, "signature"@, signature),
                ..s
            },
            _ => s,
        }
    } else if kind == Json::Text("input_json_delta"@) {
        match (index, text(member(delta, "partial_json"@))) {
            (Some(index), Some(fragment)) => on_arguments(s, index, fragment),
            _ => s,
        }
    } else {
        s
    }
}

/// The event that tells the end of a call.
pub open spec fn end_of(call: StreamingToolCallView) -> AdapterStreamEventView {
    AdapterStreamEventView::ToolCallEnd {
        index: call.event_index,
        tool_call: ToolCallView {
            id: match call.id {
                Some(id) => id,
                None => synthesized_id(call.event_index),
            },
            name: match call.name {
                Some(name) => name,
                None => ""@,
            },
            arguments: arguments_in_text(call.arguments),
        },
    }
}

/// What the end of a content block leads to.
pub open spec fn on_block_stop(s: StreamView, index: u64) -> StreamView {
    if holds_number(s.tools, index) {
        StreamView {
            events: s.events.push(end_of(item_of(s.tools, index))),
            tools: without(s.tools, index),
            ..s
        }
    } else {
        s
    }
}

/// What a frame is about: its event name, or where it has none the type that its value gives.
pub open spec fn kind_of(name: Seq<char>, value: Json) -> Seq<char> {
    if name.len() > 0 {
        name
    } else {
        match text(member(value, "type"@)) {
            Some(kind) => kind,
            None => ""@,
        }
    }
}

/// What a frame leads to.
pub open spec fn step(s: StreamView, name: Seq<char>, value: Json) -> StreamView {
    let kind = kind_of(name, value);
    let index = unsigned(member(value, "index"@));
    if kind == "message_start"@ {
        let usage = member(member(value, "message"@), "usage"@);
        StreamView {
            input_tokens: unsigned_32(member(usage, "input_tokens"@)),
            cached_input_tokens: unsigned_32(member(usage, "cache_read_input_tokens"@)),
            ..s
        }
    } else if kind == "content_block_start"@ {
        match index {
            Some(index) => on_block_start(s, index, member(value, "content_block"@)),
            None => s,
        }
    } else if kind == "content_block_delta"@ {
        on_block_delta(s, value)
    } else if kind == "content_block_stop"@ {
        match index {
            Some(index) => on_block_stop(s, index),
            None => s,
        }
    } else if kind == "message_delta"@ {
        let usage = member(value, "usage"@);
        StreamView {
            stop_reason: text(member(member(value, "delta"@), "stop_reason"@)),
            output_tokens: unsigned_32(member(usage, "output_tokens"@)),
            reasoning_tokens: unsigned_32(
                member(member(usage, "output_tokens_details"@), "thinking_tokens"@),
            ),
            ..s
        }
    } else {
        s
    }
}

/// What frames lead to.
pub open spec fn read_through(frames: Seq<(Seq<char>, Json)>) -> StreamView
    decreases frames.len(),
{
    if frames.len() == 0 {
        unread()
    } else {
        step(read_through(frames.drop_last()), frames.last().0, frames.last().1)
    }
}

/// The thinking blocks that can be read as content blocks.
pub open spec fn thinking_blocks(thinking: Seq<(u64, Map<Seq<char>, Json>)>) -> Seq<
    AnthropicContentView,
>
    decreases thinking.len(),
{
    if thinking.len() == 0 {
        Seq::empty()
    } else {
        let before = thinking_blocks(thinking.drop_last());
        match block_of(thinking.last().1) {
            Some(block) => before.push(block),
            None => before,
        }
    }
}

/// All events of a stream: those told on the way, the usage, and the end.
pub open spec fn closed_with(s: StreamView) -> Seq<AdapterStreamEventView> {
    (s.events + usage_event(
        s.input_tokens,
        s.output_tokens,
        s.cached_input_tokens,
        s.reasoning_tokens,
    )).push(
        AdapterStreamEventView::Finish {
            finish_reason: if s.tool_count > 0 {
                Some("tool_calls"@)
            } else {
                finish_of(s.stop_reason)
            },
            reasoning: reasoning_of(thinking_blocks(s.thinking), s.tool_count > 0),
        },
    )
}

/// The events that frames stand for.
pub open spec fn events_in(frames: Seq<(Seq<char>, Json)>) -> Seq<AdapterStreamEventView> {
    closed_with(read_through(frames))
}

// ---- Reading ----

struct Stream {
    events: Vec<AdapterStreamEvent>,
    tools: Vec<(u64, StreamingToolCall)>,
    thinking: Vec<(u64, ThinkingBlock)>,
    tool_count: usize,
    stop_reason: Option<String>,
    input_tokens: Option<u32>,
    output_tokens: Option<u32>,
    cached_input_tokens: Option<u32>,
    reasoning_tokens: Option<u32>,
}

impl DeepView for Stream {
    type V = StreamView;

    closed spec fn deep_view(&self) -> StreamView {
        StreamView {
            events: self.events.deep_view(),
            tools: self.tools.deep_view(),
            thinking: self.thinking.deep_view(),
            tool_count: self.tool_count as nat,
            stop_reason: self.stop_reason.deep_view(),
            input_tokens: self.input_tokens,
            output_tokens: self.output_tokens,
            cached_input_tokens: self.cached_input_tokens,
            reasoning_tokens: self.reasoning_tokens,
        }
    }
}

/// Whether each start of a call is among the events, as far as their number goes.
spec fn counted(s: StreamView) -> bool {
    s.tool_count <= s.events.len()
}

fn lengthen(block: &mut serde_json::Map<String, Value>, key: &str, piece: &str)
    ensures
        object_view(*final(block)) == lengthened(object_view(*old(block)), key@, piece@),
{
    let so_far = match json::get(block, key) {
        Some(value) => match value.as_str() {
            Some(t) => t.to_owned(),
            None => String::new(),
        },
        None => String::new(),
    };
    let longer = so_far.concat(piece);
    json::put(block, key, json::from_text(longer.as_str()));
    assert(object_view(*block) =~= lengthened(object_view(*old(block)), key@, piece@));
}

impl Stream {
    fn tell(&mut self, event: AdapterStreamEvent)
        requires
            counted(old(self).deep_view()),
        ensures
            final(self).deep_view() == (StreamView {
                events: old(self).deep_view().events.push(event.deep_view()),
                ..old(self).deep_view()
            }),
            counted(final(self).deep_view()),
    {
        lists::push_item(&mut self.events, event);
    }

    fn block_start(&mut self, index: u64, block: &Value)
        requires
            counted(old(self).deep_view()),
        ensures
            final(self).deep_view() == on_block_start(
                old(self).deep_view(),
                index,
                json_view(*block),
            ),
            counted(final(self).deep_view()),
    {
        if json::text_at_is(block, "type", "tool_use") {
            let id = json::text_at(block, "id");
            let name = json::text_at(block, "name");
            let event_index = self.tool_count;
            self.tell(
                AdapterStreamEvent::ToolCallStart {
                    index: event_index,
                    id: id.clone(),
                    name: name.clone(),
                },
            );
            indexed::put_item(
                &mut self.tools,
                index,
                StreamingToolCall { event_index, id, name, arguments: String::new() },
            );
            assert(self.events.len() > self.tool_count);
            self.tool_count += 1;
        } else if json::text_at_is(block, "type", "thinking") || json::text_at_is(
            block,
            "type",
            "redacted_thinking",
        ) {
            indexed::put_item(
                &mut self.thinking,
                index,
                ThinkingBlock { members: json::members_of(block) },
            );
        }
    }

    fn add_piece(&mut self, index: u64, key: &str, piece: &str)
        requires
            counted(old(self).deep_view()),
        ensures
            final(self).deep_view() == (StreamView {
                thinking: with_piece(old(self).deep_view().thinking, index, key@, piece@),
                ..old(self).deep_view()
            }),
            counted(final(self).deep_view()),
    {
        let (at, found) = indexed::find(&self.thinking, index);
        if found {
            assert(self.thinking.deep_view()[at as int] == self.thinking@[at as int].deep_view());
            let mut members = self.thinking[at].1.members.clone();
            lengthen(&mut members, key, piece);
            indexed::put_item(&mut self.thinking, index, ThinkingBlock { members });
        }
    }

    fn add_arguments(&mut self, index: u64, fragment: String)
        requires
            counted(old(self).deep_view()),
        ensures
            final(self).deep_view() == on_arguments(old(self).deep_view(), index, fragment@),
            counted(final(self).deep_view()),
    {
        if fragment.as_str().is_empty() {
            return;
        }
        let (at, found) = indexed::find(&self.tools, index);
        if found {
            assert(self.tools.deep_view()[at as int] == self.tools@[at as int].deep_view());
            let call = &self.tools[at].1;
            let event_index = call.event_index;
            let longer = StreamingToolCall {
                event_index,
                id: call.id.clone(),
                name: call.name.clone(),
                arguments: call.arguments.clone().concat(fragment.as_str()),
            };
            indexed::put_item(&mut self.tools, index, longer);
            self.tell(
                AdapterStreamEvent::ToolCallDelta {
                    index: event_index,
                    arguments_delta: fragment,
                },
            );
        }
    }

    fn block_delta(&mut self, value: &Value)
        requires
            counted(old(self).deep_view()),
        ensures
            final(self).deep_view() == on_block_delta(old(self).deep_view(), json_view(*value)),
            counted(final(self).deep_view()),
    {
        let delta = json::at(value, "delta");
        let index = json::at(value, "index").as_u64();
        if json::text_at_is(delta, "type", "text_delta") {
            if let Some(t) = json::text_at(delta, "text") {
                if !t.as_str().is_empty() {
                    self.tell(AdapterStreamEvent::TextDelta { text: t });
                }
            }
        } else if json::text_at_is(delta, "type", "thinking_delta") {
            if let (Some(index), Some(t)) = (index, json::text_at(delta, "thinking")) {
                if !t.as_str().is_empty() {
                    self.add_piece(index, "thinking", t.as_str());
                    self.tell(AdapterStreamEvent::ReasoningSummaryDelta { text: t });
                }
            }
        } else if json::text_at_is(delta, "type", "signature_delta") {
            if let (Some(index), Some(signature)) = (index, json::text_at(delta, "signature")) {
                self.add_piece(index, "signature", signature.as_str());
            }
        } else if json::text_at_is(delta, "type", "input_json_delta") {
            if let (Some(index), Some(fragment)) = (index, json::text_at(delta, "partial_json")) {
                self.add_arguments(index, fragment);
            }
        }
    }

    fn block_stop(&mut self, index: u64)
        requires
            counted(old(self).deep_view()),
        ensures
            final(self).deep_view() == on_block_stop(old(self).deep_view(), index),
            counted(final(self).deep_view()),
    {
        if let Some(call) = indexed::take_item(&mut self.tools, index) {
            let id = match call.id {
                Some(id) => id,
                None => synthesize_id(call.event_index),
            };
            let name = match call.name {
                Some(name) => name,
                None => "".to_owned(),
            };
            self.tell(
                AdapterStreamEvent::ToolCallEnd {
                    index: call.event_index,
                    tool_call: ToolCall {
                        id,
                        name,
                        arguments: parse_tool_arguments(call.arguments.as_str()),
                    },
                },
            );
        }
    }

    fn take_frame(&mut self, name: &str, value: &Value)
        requires
            counted(old(self).deep_view()),
        ensures
            final(self).deep_view() == step(old(self).deep_view(), name@, json_view(*value)),
            counted(final(self).deep_view()),
    {
        let kind = if name.is_empty() {
            match json::text_at(value, "type") {
                Some(kind) => kind,
                None => "".to_owned(),
            }
        } else {
            name.to_owned()
        };
        let index = json::at(value, "index").as_u64();
        if text::same(kind.as_str(), "message_start") {
            let usage = json::at(json::at(value, "message"), "usage");
            self.input_tokens = json::unsigned_at(usage, "input_tokens");
            self.cached_input_tokens = json::unsigned_at(usage, "cache_read_input_tokens");
        } else if text::same(kind.as_str(), "content_block_start") {
            if let Some(index) = index {
                self.block_start(index, json::at(value, "content_block"));
            }
        } else if text::same(kind.as_str(), "content_block_delta") {
            self.block_delta(value);
        } else if text::same(kind.as_str(), "content_block_stop") {
            if let Some(index) = index {
                self.block_stop(index);
            }
        } else if text::same(kind.as_str(), "message_delta") {
            let usage = json::at(value, "usage");
            self.stop_reason = json::text_at(json::at(value, "delta"), "stop_reason");
            self.output_tokens = json::unsigned_at(usage, "output_tokens");
            self.reasoning_tokens = json::unsigned_at(
                json::at(usage, "output_tokens_details"),
                "thinking_tokens",
            );
        }
    }

    fn read_thinking(&self) -> (r: Vec<AnthropicContent>)
        ensures
            r.deep_view() == thinking_blocks(self.deep_view().thinking),
    {
        let ghost all = self.thinking.deep_view();
        let mut r: Vec<AnthropicContent> = lists::no_items();
        let mut i: usize = 0;
        while i < self.thinking.len()
            invariant
                i <= self.thinking@.len(),
                all == self.thinking.deep_view(),
                r.deep_view() == thinking_blocks(all.take(i as int)),
            decreases self.thinking@.len() - i,
        {
            proof {
                assert(all.take(i + 1).drop_last() == all.take(i as int));
                assert(all.take(i + 1).last() == self.thinking@[i as int].deep_view());
            }
            if let Some(block) = read_block(self.thinking[i].1.members.clone()) {
                lists::push_item(&mut r, block);
            }
            i += 1;
        }
        assert(all.take(i as int) == all);
        r
    }
}

/// Reads the frames of a stream as structured events.
pub fn read_stream(frames: &Vec<(String, Value)>) -> (r: Vec<AdapterStreamEvent>)
    ensures
        r.deep_view() == events_in(frames_view(frames@)),
{
    let mut stream = Stream {
        events: lists::no_items(),
        tools: lists::no_items(),
        thinking: lists::no_items(),
        tool_count: 0,
        stop_reason: None,
        input_tokens: None,
        output_tokens: None,
        cached_input_tokens: None,
        reasoning_tokens: None,
    };
    let ghost all = frames_view(frames@);
    let mut i: usize = 0;
    while i < frames.len()
        invariant
            i <= frames@.len(),
            all == frames_view(frames@),
            stream.deep_view() == read_through(all.take(i as int)),
            counted(stream.deep_view()),
        decreases frames@.len() - i,
    {
        proof {
            assert(all.take(i + 1).drop_last() == all.take(i as int));
            assert(all.take(i + 1).last() == (frames@[i as int].0@, json_view(
                frames@[i as int].1,
            )));
        }
        stream.take_frame(frames[i].0.as_str(), &frames[i].1);
        i += 1;
    }
    assert(all.take(i as int) == all);
    let blocks = stream.read_thinking();
    let finish_reason = if stream.tool_count > 0 {
        Some("tool_calls".to_owned())
    } else {
        match &stream.stop_reason {
            Some(reason) => map_stop(Some(reason.as_str())),
            None => map_stop(None),
        }
    };
    let reasoning = parse_reasoning(blocks.as_slice(), stream.tool_count > 0);
    let mut events = stream.events;
    push_usage(
        &mut events,
        stream.input_tokens,
        stream.output_tokens,
        stream.cached_input_tokens,
        stream.reasoning_tokens,
    );
    lists::push_item(&mut events, AdapterStreamEvent::Finish { finish_reason, reasoning });
    events
}

/// Reads the body of a streamed answer as structured events.
pub fn parse_stream_events(body: &str) -> (r: Vec<AdapterStreamEvent>)
    ensures
        r.deep_view() == events_in(valued(body_contents(body@))),
{
    read_stream(&sse_frames(body))
}

// ---- Text alone ----

/// The text that a value of a stream adds: that of a piece of a content block.
pub open spec fn value_text(value: Json) -> Seq<Seq<char>> {
    match text(member(member(value, "delta"@), "text"@)) {
        Some(t) if member(value, "type"@) == Json::Text("content_block_delta"@) =>
            text::if_not_empty(t),
        _ => Seq::empty(),
    }
}

/// The text that a line of a stream adds: that of its data, if it is JSON.
pub open spec fn line_text(line: Seq<char>) -> Seq<Seq<char>> {
    match without_prefix(trimmed(line), "data: "@) {
        Some(data) => match json_of_text(data) {
            Ok(value) => value_text(value),
            Err(_) => Seq::empty(),
        },
        None => Seq::empty(),
    }
}

/// The texts that lines of a stream add.
pub open spec fn lines_text(lines: Seq<Seq<char>>) -> Seq<Seq<char>>
    decreases lines.len(),
{
    if lines.len() == 0 {
        Seq::empty()
    } else {
        lines_text(lines.drop_last()) + line_text(lines.last())
    }
}

/// Adds the text of a value of a stream.
pub fn push_value_text(texts: &mut Vec<String>, value: &Value)
    ensures
        final(texts).deep_view() == old(texts).deep_view() + value_text(json_view(*value)),
{
    let ghost before = texts.deep_view();
    if json::text_at_is(value, "type", "content_block_delta") {
        if let Some(t) = json::text_at(json::at(value, "delta"), "text") {
            text::push_if_not_empty(texts, t.as_str());
        }
    }
    assert(texts.deep_view() =~= before + value_text(json_view(*value)));
}

/// Reads a chunk of a stream as text alone. What is no UTF-8 is replaced.
pub fn read_chunk(bytes: &[u8]) -> (r: Vec<String>)
    ensures
        r.deep_view() == lines_text(line_texts(utf8_lossy(bytes@))),
{
    let chunk = text::lossy_text(bytes);
    let lines = text::lines(chunk.as_str());
    let ghost all = lines.deep_view();
    let mut texts: Vec<String> = lists::no_items();
    let mut i: usize = 0;
    while i < lines.len()
        invariant
            i <= lines@.len(),
            all == lines.deep_view(),
            texts.deep_view() == lines_text(all.take(i as int)),
        decreases lines@.len() - i,
    {
        proof {
            assert(all.take(i + 1).drop_last() == all.take(i as int));
            assert(all.take(i + 1).last() == lines@[i as int]@);
        }
        let ghost before = texts.deep_view();
        let line = text::trim(lines[i].as_str());
        if let Some(data) = text::strip_prefix(line.as_str(), "data: ") {
            if let Ok(value) = json::parse(data.as_str()) {
                push_value_text(&mut texts, &value);
            }
        }
        i += 1;
        assert(texts.deep_view() =~= before + line_text(all[i - 1]));
    }
    assert(all.take(i as int) == all);
    texts
}

// ---- Laws ----

/// What holds of a stream however far it was read: blocks are kept in order, one entry for each;
/// calls that are open have numbers of their own, and none of them was told to have ended; no end
/// was told twice; and the stream's end was not told.
pub open spec fn consistent(s: StreamView) -> bool {
    &&& ordered(s.tools)
    &&& ordered(s.thinking)
    &&& forall|i: int|
        0 <= i < s.tools.len() ==> (#[trigger] s.tools[i]).1.event_index < s.tool_count
    &&& forall|i: int, j: int|
        0 <= i < j < s.tools.len() ==> (#[trigger] s.tools[i]).1.event_index != (
        #[trigger] s.tools[j]).1.event_index
    &&& forall|k: int|
        0 <= k < s.events.len() && #[trigger] s.events[k] is ToolCallEnd
            ==> s.events[k]->ToolCallEnd_index < s.tool_count
    &&& forall|k: int, i: int|
        0 <= k < s.events.len() && 0 <= i < s.tools.len() && #[trigger] s.events[k]
            is ToolCallEnd ==> s.events[k]->ToolCallEnd_index != (
        #[trigger] s.tools[i]).1.event_index
    &&& ends_once(s.events)
    &&& unfinished(s.events)
}

proof fn lemma_telling(s: StreamView, event: AdapterStreamEventView)
    requires
        consistent(s),
        !(event is ToolCallEnd),
        !(event is Finish),
    ensures
        consistent(StreamView { events: s.events.push(event), ..s }),
{
    let after = s.events.push(event);
    assert(forall|k: int| 0 <= k < s.events.len() ==> after[k] == s.events[k]);
}

proof fn lemma_start(s: StreamView, index: u64, block: Json)
    requires
        consistent(s),
    ensures
        consistent(on_block_start(s, index, block)),
{
    let kind = member(block, "type"@);
    if kind == Json::Text("tool_use"@) {
        let call = StreamingToolCallView {
            event_index: s.tool_count,
            id: text(member(block, "id"@)),
            name: text(member(block, "name"@)),
            arguments: Seq::empty(),
        };
        law_put(s.tools, index, call);
        indexed::lemma_put_entries(s.tools, index, call);
        lemma_telling(
            s,
            AdapterStreamEventView::ToolCallStart {
                index: call.event_index,
                id: call.id,
                name: call.name,
            },
        );
    } else {
        law_put(s.thinking, index, members(block));
    }
}

proof fn lemma_arguments(s: StreamView, index: u64, fragment: Seq<char>)
    requires
        consistent(s),
    ensures
        consistent(on_arguments(s, index, fragment)),
{
    if holds_number(s.tools, index) && fragment.len() > 0 {
        let call = item_of(s.tools, index);
        let longer = StreamingToolCallView { arguments: call.arguments + fragment, ..call };
        law_put(s.tools, index, longer);
        indexed::lemma_put_entries(s.tools, index, longer);
        lemma_telling(
            s,
            AdapterStreamEventView::ToolCallDelta {
                index: call.event_index,
                arguments_delta: fragment,
            },
        );
    }
}

proof fn lemma_stop(s: StreamView, index: u64)
    requires
        consistent(s),
    ensures
        consistent(on_block_stop(s, index)),
{
    if holds_number(s.tools, index) {
        law_taken(s.tools, index);
        indexed::lemma_taken_entries(s.tools, index);
        let call = item_of(s.tools, index);
        let after = on_block_stop(s, index);
        assert(forall|k: int| 0 <= k < s.events.len() ==> after.events[k] == s.events[k]);
        assert(s.tools[indexed::place(s.tools, index, 0)].1 == call);
    }
}

/// Reading a frame keeps a stream consistent.
pub proof fn law_step_keeps_consistency(s: StreamView, name: Seq<char>, value: Json)
    requires
        consistent(s),
    ensures
        consistent(step(s, name, value)),
{
    let kind = kind_of(name, value);
    let delta = member(value, "delta"@);
    if let Some(index) = unsigned(member(value, "index"@)) {
        lemma_start(s, index, member(value, "content_block"@));
        lemma_stop(s, index);
        if let Some(fragment) = text(member(delta, "partial_json"@)) {
            lemma_arguments(s, index, fragment);
        }
        if let Some(t) = text(member(delta, "thinking"@)) {
            lemma_telling(s, AdapterStreamEventView::ReasoningSummaryDelta { text: t });
            law_put(
                s.thinking,
                index,
                lengthened(item_of(s.thinking, index), "thinking"@, t),
            );
        }
        if let Some(signature) = text(member(delta, "signature"@)) {
            law_put(
                s.thinking,
                index,
                lengthened(item_of(s.thinking, index), "signature"@, signature),
            );
        }
    }
    if let Some(t) = text(member(delta, "text"@)) {
        lemma_telling(s, AdapterStreamEventView::TextDelta { text: t });
    }
}

proof fn lemma_read_through(frames: Seq<(Seq<char>, Json)>)
    ensures
        consistent(read_through(frames)),
    decreases frames.len(),
{
    if frames.len() > 0 {
        lemma_read_through(frames.drop_last());
        law_step_keeps_consistency(
            read_through(frames.drop_last()),
            frames.last().0,
            frames.last().1,
        );
    }
}

/// A stream ends with exactly one finish event, and the end of no call is told twice.
pub proof fn law_streams_are_well_ended(frames: Seq<(Seq<char>, Json)>)
    ensures
        well_ended(events_in(frames)),
{
    lemma_read_through(frames);
    let s = read_through(frames);
    let events = events_in(frames);
    assert(events.drop_last() =~= s.events + usage_event(
        s.input_tokens,
        s.output_tokens,
        s.cached_input_tokens,
        s.reasoning_tokens,
    ));
    assert(forall|k: int| 0 <= k < s.events.len() ==> events[k] == s.events[k]);
    assert(forall|k: int| s.events.len() <= k < events.len() ==> !(events[k] is ToolCallEnd));
}

} // verus!
