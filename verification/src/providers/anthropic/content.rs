//! Reads a complete answer of the Messages API: its content blocks and what they amount to.

use crate::json;
use crate::json::{json_view, members, no_members, object_view, optional_view, with_member, Json};
use crate::lists;
use crate::providers::adapter::{AdapterResult, AdapterResultView};
use crate::schema::reasoning::{
    OpaqueReasoningState, OpaqueReasoningStateView, ReasoningInfo, ReasoningInfoView,
};
use crate::schema::tools::{synthesize_id, synthesized_id, ToolCall, ToolCallView};
use crate::text;
use crate::text::{if_not_empty, joined};
use serde_json::Value;
use vstd::prelude::*;

verus! {

/// The format of the reasoning state that this API takes back.
pub const REASONING_FORMAT: &'static str = "anthropic.messages.thinking.v1";

// ---- Content blocks ----

/// A content block.
#[derive(Debug)]
pub struct AnthropicContent {
    pub kind: String,
    pub text: Option<String>,
    pub id: Option<String>,
    pub name: Option<String>,
    pub input: Option<Value>,
    pub thinking: Option<String>,
    pub signature: Option<String>,
    /// The members that no field stands for.
    pub extra: serde_json::Map<String, Value>,
}

/// What an `AnthropicContent` holds.
pub struct AnthropicContentView {
    pub kind: Seq<char>,
    pub text: Option<Seq<char>>,
    pub id: Option<Seq<char>>,
    pub name: Option<Seq<char>>,
    pub input: Option<Json>,
    pub thinking: Option<Seq<char>>,
    pub signature: Option<Seq<char>>,
    pub extra: Map<Seq<char>, Json>,
}

impl DeepView for AnthropicContent {
    type V = AnthropicContentView;

    open spec fn deep_view(&self) -> AnthropicContentView {
        AnthropicContentView {
            kind: self.kind@,
            text: self.text.deep_view(),
            id: self.id.deep_view(),
            name: self.name.deep_view(),
            input: optional_view(self.input),
            thinking: self.thinking.deep_view(),
            signature: self.signature.deep_view(),
            extra: object_view(self.extra),
        }
    }
}

/// An optional text as an optional value.
pub open spec fn as_json(t: Option<Seq<char>>) -> Option<Json> {
    match t {
        Some(t) => Some(Json::Text(t)),
        None => None,
    }
}

/// A content block as it goes over the wire: a member for each field that is set, and the other
/// members.
pub open spec fn written(block: AnthropicContentView) -> Map<Seq<char>, Json> {
    let kind = no_members().insert("type"@, Json::Text(block.kind));
    let text = with_member(kind, "text"@, as_json(block.text));
    let id = with_member(text, "id"@, as_json(block.id));
    let name = with_member(id, "name"@, as_json(block.name));
    let input = with_member(name, "input"@, block.input);
    let thinking = with_member(input, "thinking"@, as_json(block.thinking));
    let signature = with_member(thinking, "signature"@, as_json(block.signature));
    signature.union_prefer_right(block.extra)
}

fn put_text(object: &mut serde_json::Map<String, Value>, key: &str, t: &Option<String>)
    ensures
        object_view(*final(object)) == with_member(
            object_view(*old(object)),
            key@,
            as_json(t.deep_view()),
        ),
{
    if let Some(t) = t {
        json::put(object, key, json::from_text(t.as_str()));
    }
}

/// Writes a content block as it goes over the wire.
pub fn write_block(block: &AnthropicContent) -> (r: Value)
    ensures
        json_view(r) == Json::Object(written(block.deep_view())),
{
    let mut object: serde_json::Map<String, Value> = serde_json::Map::new();
    json::put(&mut object, "type", json::from_text(block.kind.as_str()));
    put_text(&mut object, "text", &block.text);
    put_text(&mut object, "id", &block.id);
    put_text(&mut object, "name", &block.name);
    if let Some(input) = &block.input {
        json::put(&mut object, "input", input.clone());
    }
    put_text(&mut object, "thinking", &block.thinking);
    put_text(&mut object, "signature", &block.signature);
    json::from_object(json::overlay(object, &block.extra))
}

/// A member that may be a text: `Some(None)` where it is missing or null, nothing where it is
/// something else.
pub open spec fn text_member(members: Map<Seq<char>, Json>, key: Seq<char>) -> Option<
    Option<Seq<char>>,
> {
    if !members.contains_key(key) {
        Some(None)
    } else {
        match members[key] {
            Json::Null => Some(None),
            Json::Text(t) => Some(Some(t)),
            _ => None,
        }
    }
}

/// A member that may be anything: none where it is missing or null.
pub open spec fn any_member(members: Map<Seq<char>, Json>, key: Seq<char>) -> Option<Json> {
    if !members.contains_key(key) || members[key] == Json::Null {
        None
    } else {
        Some(members[key])
    }
}

/// The members that no field of a content block stands for.
pub open spec fn other_members(members: Map<Seq<char>, Json>) -> Map<Seq<char>, Json> {
    members.remove("type"@).remove("text"@).remove("id"@).remove("name"@).remove("input"@).remove(
        "thinking"@,
    ).remove("signature"@)
}

/// The content block that members amount to: none where the type is no text, or where a field that
/// must be a text is something else.
pub open spec fn block_of(members: Map<Seq<char>, Json>) -> Option<AnthropicContentView> {
    match (
        text_member(members, "type"@),
        text_member(members, "text"@),
        text_member(members, "id"@),
        text_member(members, "name"@),
        text_member(members, "thinking"@),
        text_member(members, "signature"@),
    ) {
        (
            Some(Some(kind)),
            Some(text),
            Some(id),
            Some(name),
            Some(thinking),
            Some(signature),
        ) => Some(
            AnthropicContentView {
                kind,
                text,
                id,
                name,
                input: any_member(members, "input"@),
                thinking,
                signature,
                extra: other_members(members),
            },
        ),
        _ => None,
    }
}

fn take_text(members: &mut serde_json::Map<String, Value>, key: &str) -> (r: Option<Option<String>>)
    ensures
        object_view(*final(members)) == object_view(*old(members)).remove(key@),
        r.deep_view() == text_member(object_view(*old(members)), key@),
{
    match json::take(members, key) {
        None => Some(None),
        Some(value) => {
            if value.is_null() {
                Some(None)
            } else {
                match value.as_str() {
                    Some(t) => Some(Some(t.to_owned())),
                    None => None,
                }
            }
        },
    }
}

/// Reads members as a content block.
pub fn read_block(object: serde_json::Map<String, Value>) -> (r: Option<AnthropicContent>)
    ensures
        r.deep_view() == block_of(object_view(object)),
{
    let ghost all = object_view(object);
    proof {
        lemma_field_names();
    }
    let mut rest = object;
    let kind = take_text(&mut rest, "type");
    let text_field = take_text(&mut rest, "text");
    let id_field = take_text(&mut rest, "id");
    let name_field = take_text(&mut rest, "name");
    let input = match json::take(&mut rest, "input") {
        Some(value) => if value.is_null() {
            None
        } else {
            Some(value)
        },
        None => None,
    };
    let thinking_field = take_text(&mut rest, "thinking");
    let signature_field = take_text(&mut rest, "signature");
    assert(object_view(rest) =~= other_members(all));
    match (kind, text_field, id_field, name_field, thinking_field, signature_field) {
        (
            Some(Some(kind)),
            Some(text),
            Some(id),
            Some(name),
            Some(thinking),
            Some(signature),
        ) => Some(
            AnthropicContent { kind, text, id, name, input, thinking, signature, extra: rest },
        ),
        _ => None,
    }
}

proof fn lemma_field_names()
    ensures
        "type"@ != "text"@,
        "type"@ != "id"@,
        "type"@ != "name"@,
        "type"@ != "input"@,
        "type"@ != "thinking"@,
        "type"@ != "signature"@,
        "text"@ != "id"@,
        "text"@ != "name"@,
        "text"@ != "input"@,
        "text"@ != "thinking"@,
        "text"@ != "signature"@,
        "id"@ != "name"@,
        "id"@ != "input"@,
        "id"@ != "thinking"@,
        "id"@ != "signature"@,
        "name"@ != "input"@,
        "name"@ != "thinking"@,
        "name"@ != "signature"@,
        "input"@ != "thinking"@,
        "input"@ != "signature"@,
        "thinking"@ != "signature"@,
{
    reveal_strlit("type");
    reveal_strlit("text");
    reveal_strlit("id");
    reveal_strlit("name");
    reveal_strlit("input");
    reveal_strlit("thinking");
    reveal_strlit("signature");
    assert("type"@[1] != "text"@[1]);
    assert("type"@[0] != "name"@[0]);
    assert("text"@[0] != "name"@[0]);
    assert("type"@.len() == 4 && "text"@.len() == 4 && "id"@.len() == 2 && "name"@.len() == 4
        && "input"@.len() == 5 && "thinking"@.len() == 8 && "signature"@.len() == 9);
}

/// A content block that is read and written again is unchanged, so long as none of its fields was
/// spelled out as null.
pub proof fn law_block_is_replayed_unchanged(members: Map<Seq<char>, Json>)
    requires
        block_of(members) is Some,
        forall|key: Seq<char>| #[trigger]
            members.contains_key(key) && !other_members(members).contains_key(key) ==> members[key]
                != Json::Null,
    ensures
        written(block_of(members)->0) == members,
{
    lemma_field_names();
    let again = written(block_of(members)->0);
    assert forall|key: Seq<char>| again.contains_key(key) == members.contains_key(key) && (
    members.contains_key(key) ==> again[key] == members[key]) by {
        if key == "type"@ || key == "text"@ || key == "id"@ || key == "name"@ || key == "input"@
            || key == "thinking"@ || key == "signature"@ {
            assert(!other_members(members).contains_key(key));
        } else {
            assert(other_members(members).contains_key(key) == members.contains_key(key));
        }
    }
    assert(again =~= members);
}

// ---- What the blocks amount to ----

/// Why a response ended, in terms of no provider in particular.
pub open spec fn finish_of(reason: Option<Seq<char>>) -> Option<Seq<char>> {
    match reason {
        Some(r) => Some(
            if r == "end_turn"@ || r == "stop_sequence"@ {
                "stop"@
            } else if r == "max_tokens"@ {
                "length"@
            } else if r == "tool_use"@ {
                "tool_calls"@
            } else {
                "unknown"@
            },
        ),
        None => None,
    }
}

/// Why a response ended, in terms of no provider in particular.
pub fn map_stop(r: Option<&str>) -> (mapped: Option<String>)
    ensures
        mapped.deep_view() == finish_of(r.deep_view()),
{
    match r {
        Some(reason) => Some(
            if text::same(reason, "end_turn") || text::same(reason, "stop_sequence") {
                "stop".to_owned()
            } else if text::same(reason, "max_tokens") {
                "length".to_owned()
            } else if text::same(reason, "tool_use") {
                "tool_calls".to_owned()
            } else {
                "unknown".to_owned()
            },
        ),
        None => None,
    }
}

/// The tool call that the block at a position asks for, if it asks for one.
pub open spec fn call_in(block: AnthropicContentView, position: nat) -> Option<ToolCallView> {
    match block.name {
        Some(name) if block.kind == "tool_use"@ => Some(
            ToolCallView {
                id: match block.id {
                    Some(id) => id,
                    None => synthesized_id(position),
                },
                name,
                arguments: match block.input {
                    Some(input) => members(input),
                    None => no_members(),
                },
            },
        ),
        _ => None,
    }
}

fn read_call(block: &AnthropicContent, position: usize) -> (r: Option<ToolCall>)
    ensures
        r.deep_view() == call_in(block.deep_view(), position as nat),
{
    if !text::same(block.kind.as_str(), "tool_use") {
        return None;
    }
    match &block.name {
        Some(name) => {
            let id = match &block.id {
                Some(id) => id.clone(),
                None => synthesize_id(position),
            };
            let arguments = match &block.input {
                Some(input) => json::members_of(input),
                None => serde_json::Map::new(),
            };
            Some(ToolCall { id, name: name.clone(), arguments })
        },
        None => None,
    }
}

/// The tool calls that blocks ask for.
pub open spec fn calls_in(content: Seq<AnthropicContentView>) -> Seq<ToolCallView>
    decreases content.len(),
{
    if content.len() == 0 {
        Seq::empty()
    } else {
        let before = calls_in(content.drop_last());
        match call_in(content.last(), (content.len() - 1) as nat) {
            Some(call) => before.push(call),
            None => before,
        }
    }
}

/// The tool calls that blocks ask for, if they ask for any.
pub open spec fn tool_calls_of(content: Seq<AnthropicContentView>) -> Option<Seq<ToolCallView>> {
    if calls_in(content).len() == 0 {
        None
    } else {
        Some(calls_in(content))
    }
}

/// The tool calls that blocks ask for, if they ask for any.
pub fn parse_tool_use_blocks(content: &[AnthropicContent]) -> (r: Option<Vec<ToolCall>>)
    ensures
        r.deep_view() == tool_calls_of(content.deep_view()),
{
    let mut calls: Vec<ToolCall> = lists::no_items();
    let ghost all = content.deep_view();
    let mut i: usize = 0;
    while i < content.len()
        invariant
            i <= content@.len(),
            all == content.deep_view(),
            calls.deep_view() == calls_in(all.take(i as int)),
        decreases content@.len() - i,
    {
        proof {
            assert(all.take(i + 1).drop_last() == all.take(i as int));
            assert(all.take(i + 1).last() == content@[i as int].deep_view());
        }
        if let Some(call) = read_call(&content[i], i) {
            lists::push_item(&mut calls, call);
        }
        i += 1;
    }
    assert(all.take(i as int) == all);
    if calls.len() == 0 {
        None
    } else {
        Some(calls)
    }
}

/// Whether a block is thinking, readable or not.
pub open spec fn is_thinking(block: AnthropicContentView) -> bool {
    block.kind == "thinking"@ || block.kind == "redacted_thinking"@
}

/// The summaries that readable thinking gives.
pub open spec fn summaries_in(content: Seq<AnthropicContentView>) -> Seq<Seq<char>>
    decreases content.len(),
{
    if content.len() == 0 {
        Seq::empty()
    } else {
        let before = summaries_in(content.drop_last());
        match content.last().thinking {
            Some(t) if content.last().kind == "thinking"@ => before + if_not_empty(t),
            _ => before,
        }
    }
}

/// The state that thinking leaves, to be sent back as it came.
pub open spec fn states_in(content: Seq<AnthropicContentView>) -> Seq<OpaqueReasoningStateView>
    decreases content.len(),
{
    if content.len() == 0 {
        Seq::empty()
    } else {
        let before = states_in(content.drop_last());
        if is_thinking(content.last()) {
            before.push(
                OpaqueReasoningStateView {
                    format: REASONING_FORMAT@,
                    value: Json::Object(written(content.last())),
                },
            )
        } else {
            before
        }
    }
}

/// The reasoning that blocks hand on: summaries, and state where it is wanted.
pub open spec fn reasoning_of(
    content: Seq<AnthropicContentView>,
    include_continuation: bool,
) -> Option<ReasoningInfoView> {
    let summaries = summaries_in(content);
    let states = if include_continuation {
        states_in(content)
    } else {
        Seq::empty()
    };
    if summaries.len() == 0 && states.len() == 0 {
        None
    } else {
        Some(
            ReasoningInfoView {
                summary: if summaries.len() == 0 {
                    None
                } else {
                    Some(joined(summaries, "\n\n"@))
                },
                continuation: if states.len() == 0 {
                    None
                } else {
                    Some(states)
                },
            },
        )
    }
}

/// The reasoning that blocks hand on: summaries, and state where it is wanted.
pub fn parse_reasoning(content: &[AnthropicContent], include_continuation: bool) -> (r: Option<
    ReasoningInfo,
>)
    ensures
        r.deep_view() == reasoning_of(content.deep_view(), include_continuation),
{
    let mut summaries: Vec<String> = lists::no_items();
    let mut states: Vec<OpaqueReasoningState> = lists::no_items();
    let ghost all = content.deep_view();
    let mut i: usize = 0;
    while i < content.len()
        invariant
            i <= content@.len(),
            all == content.deep_view(),
            summaries.deep_view() == summaries_in(all.take(i as int)),
            states.deep_view() == (if include_continuation {
                states_in(all.take(i as int))
            } else {
                Seq::empty()
            }),
        decreases content@.len() - i,
    {
        proof {
            assert(all.take(i + 1).drop_last() == all.take(i as int));
            assert(all.take(i + 1).last() == content@[i as int].deep_view());
        }
        let block = &content[i];
        let readable = text::same(block.kind.as_str(), "thinking");
        if readable {
            if let Some(t) = &block.thinking {
                text::push_if_not_empty(&mut summaries, t.as_str());
            }
        }
        if include_continuation && (readable || text::same(
            block.kind.as_str(),
            "redacted_thinking",
        )) {
            lists::push_item(
                &mut states,
                OpaqueReasoningState {
                    format: REASONING_FORMAT.to_owned(),
                    value: write_block(block),
                },
            );
        }
        i += 1;
    }
    assert(all.take(i as int) == all);
    if summaries.len() == 0 && states.len() == 0 {
        return None;
    }
    let summary = if summaries.len() == 0 {
        None
    } else {
        Some(text::join(&summaries, "\n\n"))
    };
    let continuation = if states.len() == 0 {
        None
    } else {
        Some(states)
    };
    Some(ReasoningInfo { summary, continuation })
}

/// The text of the text blocks.
pub open spec fn text_in(content: Seq<AnthropicContentView>) -> Seq<char>
    decreases content.len(),
{
    if content.len() == 0 {
        Seq::empty()
    } else {
        let before = text_in(content.drop_last());
        match content.last().text {
            Some(t) if content.last().kind == "text"@ => before + t,
            _ => before,
        }
    }
}

fn read_text(content: &[AnthropicContent]) -> (r: String)
    ensures
        r@ == text_in(content.deep_view()),
{
    let mut r = String::new();
    let ghost all = content.deep_view();
    let mut i: usize = 0;
    assert(r@ =~= text_in(all.take(0)));
    while i < content.len()
        invariant
            i <= content@.len(),
            all == content.deep_view(),
            r@ == text_in(all.take(i as int)),
        decreases content@.len() - i,
    {
        proof {
            assert(all.take(i + 1).drop_last() == all.take(i as int));
            assert(all.take(i + 1).last() == content@[i as int].deep_view());
        }
        let block = &content[i];
        if text::same(block.kind.as_str(), "text") {
            if let Some(t) = &block.text {
                r.append(t.as_str());
            }
        }
        i += 1;
    }
    assert(all.take(i as int) == all);
    r
}

// ---- The whole response ----

/// What a response cost.
#[derive(Clone, Copy, Debug)]
pub struct AnthropicUsage {
    pub input_tokens: Option<u32>,
    pub output_tokens: Option<u32>,
    pub cache_read_input_tokens: Option<u32>,
    /// Of the output tokens those that were spent on thinking.
    pub thinking_tokens: Option<u32>,
}

impl DeepView for AnthropicUsage {
    type V = AnthropicUsage;

    open spec fn deep_view(&self) -> AnthropicUsage {
        *self
    }
}

/// A complete response.
#[derive(Debug)]
pub struct AnthropicResponse {
    pub content: Vec<AnthropicContent>,
    pub usage: Option<AnthropicUsage>,
    pub stop_reason: Option<String>,
}

/// What an `AnthropicResponse` holds.
pub struct AnthropicResponseView {
    pub content: Seq<AnthropicContentView>,
    pub usage: Option<AnthropicUsage>,
    pub stop_reason: Option<Seq<char>>,
}

impl DeepView for AnthropicResponse {
    type V = AnthropicResponseView;

    open spec fn deep_view(&self) -> AnthropicResponseView {
        AnthropicResponseView {
            content: self.content.deep_view(),
            usage: self.usage,
            stop_reason: self.stop_reason.deep_view(),
        }
    }
}

/// What a response amounts to.
pub open spec fn result_of(data: AnthropicResponseView) -> AdapterResultView {
    let calls = tool_calls_of(data.content);
    AdapterResultView {
        text: text_in(data.content),
        finish_reason: if calls is Some {
            Some("tool_calls"@)
        } else {
            finish_of(data.stop_reason)
        },
        input_tokens: match data.usage {
            Some(usage) => usage.input_tokens,
            None => None,
        },
        output_tokens: match data.usage {
            Some(usage) => usage.output_tokens,
            None => None,
        },
        cached_input_tokens: match data.usage {
            Some(usage) => usage.cache_read_input_tokens,
            None => None,
        },
        reasoning_tokens: match data.usage {
            Some(usage) => usage.thinking_tokens,
            None => None,
        },
        tool_calls: calls,
        reasoning: reasoning_of(data.content, calls is Some),
    }
}

/// Reads a complete response.
pub fn read_response(data: &AnthropicResponse) -> (r: AdapterResult)
    ensures
        r.deep_view() == result_of(data.deep_view()),
{
    let tool_calls = parse_tool_use_blocks(data.content.as_slice());
    let has_calls = tool_calls.is_some();
    let usage = match data.usage {
        Some(usage) => usage,
        None => AnthropicUsage {
            input_tokens: None,
            output_tokens: None,
            cache_read_input_tokens: None,
            thinking_tokens: None,
        },
    };
    let finish_reason = if has_calls {
        Some("tool_calls".to_owned())
    } else {
        match &data.stop_reason {
            Some(reason) => map_stop(Some(reason.as_str())),
            None => map_stop(None),
        }
    };
    AdapterResult {
        text: read_text(data.content.as_slice()),
        finish_reason,
        input_tokens: usage.input_tokens,
        output_tokens: usage.output_tokens,
        cached_input_tokens: usage.cache_read_input_tokens,
        reasoning_tokens: usage.thinking_tokens,
        tool_calls,
        reasoning: parse_reasoning(data.content.as_slice(), has_calls),
    }
}

} // verus!
