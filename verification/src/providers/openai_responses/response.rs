//! Reads a complete answer of the Responses API.

use crate::errors::{result_view, PriestError, PriestErrorView};
use crate::json;
use crate::json::{
    items, json_of_text, json_view, list_view, member, object_view, text, unsigned_32, Json,
};
use crate::lists;
use crate::providers::adapter::{is_success, AdapterResult, AdapterResultView};
use crate::schema::reasoning::{
    OpaqueReasoningState, OpaqueReasoningStateView, ReasoningInfo, ReasoningInfoView,
};
use crate::schema::tools::{
    arguments_in_text, parse_tool_arguments, synthesize_id, synthesized_id, ToolCall, ToolCallView,
};
use crate::text;
use crate::text::joined;
use serde_json::Value;
use vstd::prelude::*;

verus! {

/// The format of the reasoning state that this API takes back.
pub const REASONING_FORMAT: &'static str = "openai.responses.reasoning.v1";

/// The provider's name in errors.
pub const PROVIDER: &'static str = "openai-responses";

// ---- Errors ----

/// An error that the provider is to blame for.
pub open spec fn failure(message: Seq<char>) -> PriestErrorView {
    PriestErrorView::ProviderError { provider: PROVIDER@, message }
}

/// An error that the provider is to blame for.
pub fn provider_error(message: &str) -> (r: PriestError)
    ensures
        r.deep_view() == failure(message@),
{
    PriestError::ProviderError { provider: PROVIDER.to_owned(), message: message.to_owned() }
}

/// What a failed response says of itself: the error's code, if there is one, and its message, or
/// else the response's status.
pub open spec fn failure_text(data: Json) -> Seq<char> {
    let code = match text(member(member(data, "error"@), "code"@)) {
        Some(c) => c + ": "@,
        None => Seq::empty(),
    };
    let message = match text(member(member(data, "error"@), "message"@)) {
        Some(m) => m,
        None => "response status "@ + match text(member(data, "status"@)) {
            Some(s) => s,
            None => "failed"@,
        },
    };
    code + message
}

/// The error that a failed response stands for.
pub fn response_error(data: &Value) -> (r: PriestError)
    ensures
        r.deep_view() == failure(failure_text(json_view(*data))),
{
    let error = json::at(data, "error");
    let mut message = match json::text_at(error, "code") {
        Some(code) => code.concat(": "),
        None => String::new(),
    };
    match json::text_at(error, "message") {
        Some(m) => message.append(m.as_str()),
        None => {
            let status = match json::text_at(data, "status") {
                Some(s) => s,
                None => "failed".to_owned(),
            };
            let described = "response status ".to_owned().concat(status.as_str());
            message.append(described.as_str());
        },
    }
    assert(message@ =~= failure_text(json_view(*data)));
    provider_error(message.as_str())
}

// ---- Output items ----

/// The text that a part of a message adds.
pub open spec fn part_text(part: Json) -> Seq<char> {
    match text(member(part, "text"@)) {
        Some(t) if member(part, "type"@) == Json::Text("output_text"@) => t,
        _ => Seq::empty(),
    }
}

/// The text of a message's parts.
pub open spec fn message_text(parts: Seq<Json>) -> Seq<char>
    decreases parts.len(),
{
    if parts.len() == 0 {
        Seq::empty()
    } else {
        message_text(parts.drop_last()) + part_text(parts.last())
    }
}

fn read_message(content: &Value) -> (r: String)
    ensures
        r@ == message_text(items(json_view(*content))),
{
    let mut r = String::new();
    if let Some(parts) = content.as_array() {
        let ghost all = list_view(parts@);
        let mut i: usize = 0;
        assert(r@ =~= message_text(all.take(0)));
        while i < parts.len()
            invariant
                i <= parts@.len(),
                all == list_view(parts@),
                r@ == message_text(all.take(i as int)),
            decreases parts@.len() - i,
        {
            proof {
                assert(all.take(i + 1).drop_last() == all.take(i as int));
                assert(all.take(i + 1).last() == json_view(parts@[i as int]));
            }
            if json::text_at_is(&parts[i], "type", "output_text") {
                if let Some(t) = json::text_at(&parts[i], "text") {
                    r.append(t.as_str());
                }
            }
            i += 1;
            assert(r@ =~= message_text(all.take(i as int)));
        }
        assert(all.take(i as int) == all);
    } else {
        assert(r@ =~= message_text(Seq::empty()));
    }
    r
}

/// The summary that a part of a reasoning item adds.
pub open spec fn part_summary(part: Json) -> Seq<Seq<char>> {
    match text(member(part, "text"@)) {
        Some(t) if member(part, "type"@) == Json::Text("summary_text"@) => text::if_not_empty(t),
        _ => Seq::empty(),
    }
}

/// The summaries of a reasoning item's parts.
pub open spec fn reasoning_summaries(parts: Seq<Json>) -> Seq<Seq<char>>
    decreases parts.len(),
{
    if parts.len() == 0 {
        Seq::empty()
    } else {
        reasoning_summaries(parts.drop_last()) + part_summary(parts.last())
    }
}

fn read_summaries(summaries: &mut Vec<String>, summary: &Value)
    ensures
        final(summaries).deep_view() == old(summaries).deep_view() + reasoning_summaries(
            items(json_view(*summary)),
        ),
{
    let ghost before = summaries.deep_view();
    if let Some(parts) = summary.as_array() {
        let ghost all = list_view(parts@);
        let mut i: usize = 0;
        assert(before + reasoning_summaries(all.take(0)) =~= before);
        while i < parts.len()
            invariant
                i <= parts@.len(),
                all == list_view(parts@),
                summaries.deep_view() == before + reasoning_summaries(all.take(i as int)),
            decreases parts@.len() - i,
        {
            proof {
                assert(all.take(i + 1).drop_last() == all.take(i as int));
                assert(all.take(i + 1).last() == json_view(parts@[i as int]));
            }
            if json::text_at_is(&parts[i], "type", "summary_text") {
                if let Some(t) = json::text_at(&parts[i], "text") {
                    text::push_if_not_empty(summaries, t.as_str());
                }
            }
            i += 1;
            assert(summaries.deep_view() =~= before + reasoning_summaries(all.take(i as int)));
        }
        assert(all.take(i as int) == all);
    } else {
        assert(before + reasoning_summaries(Seq::empty()) =~= before);
    }
}

/// `kept` with one member of `item`, unless it is missing or null.
pub open spec fn with_copied(
    kept: Map<Seq<char>, Json>,
    item: Json,
    key: Seq<char>,
) -> Map<Seq<char>, Json> {
    if member(item, key) == Json::Null {
        kept
    } else {
        kept.insert(key, member(item, key))
    }
}

fn copy_member(kept: &mut serde_json::Map<String, Value>, item: &Value, key: &str)
    ensures
        object_view(*final(kept)) == with_copied(
            object_view(*old(kept)),
            json_view(*item),
            key@,
        ),
{
    let value = json::at(item, key);
    if !value.is_null() {
        json::put(kept, key, value.clone());
    }
}

/// The members of a reasoning item that may be sent back: its type, id, status, summary and
/// encrypted content.
pub open spec fn kept_members(item: Json) -> Map<Seq<char>, Json> {
    let bare = Map::empty().insert("type"@, Json::Text("reasoning"@));
    with_copied(
        with_copied(
            with_copied(with_copied(bare, item, "id"@), item, "status"@),
            item,
            "summary"@,
        ),
        item,
        "encrypted_content"@,
    )
}

/// The state of a reasoning item that may be sent back to the provider: none if the item holds raw
/// reasoning, or nothing by which the provider would know it again.
pub open spec fn safe_state(item: Json) -> Option<OpaqueReasoningStateView> {
    if items(member(item, "content"@)).len() > 0 {
        None
    } else if member(item, "encrypted_content"@) == Json::Null && member(item, "id"@)
        == Json::Null {
        None
    } else {
        Some(
            OpaqueReasoningStateView {
                format: REASONING_FORMAT@,
                value: Json::Object(kept_members(item)),
            },
        )
    }
}

/// The state of a reasoning item that may be sent back to the provider.
pub fn safe_reasoning_state(item: &Value) -> (r: Option<OpaqueReasoningState>)
    ensures
        r.deep_view() == safe_state(json_view(*item)),
{
    if let Some(content) = json::at(item, "content").as_array() {
        if content.len() > 0 {
            return None;
        }
    }
    if json::at(item, "encrypted_content").is_null() && json::at(item, "id").is_null() {
        return None;
    }
    let mut kept: serde_json::Map<String, Value> = serde_json::Map::new();
    json::put(&mut kept, "type", json::from_text("reasoning"));
    copy_member(&mut kept, item, "id");
    copy_member(&mut kept, item, "status");
    copy_member(&mut kept, item, "summary");
    copy_member(&mut kept, item, "encrypted_content");
    Some(
        OpaqueReasoningState {
            format: REASONING_FORMAT.to_owned(),
            value: json::from_object(kept),
        },
    )
}

/// Raw reasoning never becomes state that is kept: an item with content gives none, and no state
/// has a member but the five that may be sent back.
pub proof fn law_raw_reasoning_is_not_kept(item: Json)
    ensures
        items(member(item, "content"@)).len() > 0 ==> safe_state(item) is None,
        safe_state(item) matches Some(state) ==> {
            &&& state.value is Object
            &&& forall|key: Seq<char>| #[trigger]
                state.value->Object_0.contains_key(key) ==> key == "type"@ || key == "id"@ || key
                    == "status"@ || key == "summary"@ || key == "encrypted_content"@
        },
{
}

/// The id of a function call item: its call id, or else its own id, or else a synthesized one.
pub open spec fn call_id(item: Json, position: nat) -> Seq<char> {
    match text(member(item, "call_id"@)) {
        Some(id) => id,
        None => match text(member(item, "id"@)) {
            Some(id) => id,
            None => synthesized_id(position),
        },
    }
}

/// The function call that an item asks for: none if it names no function.
pub open spec fn call_in(item: Json, position: nat) -> Option<ToolCallView> {
    match text(member(item, "name"@)) {
        Some(name) if name.len() > 0 => Some(
            ToolCallView {
                id: call_id(item, position),
                name,
                arguments: arguments_in_text(
                    match text(member(item, "arguments"@)) {
                        Some(a) => a,
                        None => ""@,
                    },
                ),
            },
        ),
        _ => None,
    }
}

fn read_call(item: &Value, position: usize) -> (r: Option<ToolCall>)
    ensures
        r.deep_view() == call_in(json_view(*item), position as nat),
{
    let name = match json::text_at(item, "name") {
        Some(name) => name,
        None => {
            return None;
        },
    };
    if name.as_str().is_empty() {
        return None;
    }
    let id = match json::text_at(item, "call_id") {
        Some(id) => id,
        None => match json::text_at(item, "id") {
            Some(id) => id,
            None => synthesize_id(position),
        },
    };
    let arguments = match json::text_at(item, "arguments") {
        Some(a) => parse_tool_arguments(a.as_str()),
        None => parse_tool_arguments(""),
    };
    Some(ToolCall { id, name, arguments })
}

/// What the output items of a response amount to.
pub struct GatheredView {
    pub text: Seq<char>,
    pub tool_calls: Seq<ToolCallView>,
    pub summaries: Seq<Seq<char>>,
    pub states: Seq<OpaqueReasoningStateView>,
}

/// What one more output item adds.
pub open spec fn with_item(so_far: GatheredView, item: Json) -> GatheredView {
    if member(item, "type"@) == Json::Text("message"@) {
        GatheredView {
            text: so_far.text + message_text(items(member(item, "content"@))),
            ..so_far
        }
    } else if member(item, "type"@) == Json::Text("function_call"@) {
        match call_in(item, so_far.tool_calls.len()) {
            Some(call) => GatheredView { tool_calls: so_far.tool_calls.push(call), ..so_far },
            None => so_far,
        }
    } else if member(item, "type"@) == Json::Text("reasoning"@) {
        GatheredView {
            summaries: so_far.summaries + reasoning_summaries(items(member(item, "summary"@))),
            states: match safe_state(item) {
                Some(state) => so_far.states.push(state),
                None => so_far.states,
            },
            ..so_far
        }
    } else {
        so_far
    }
}

/// What the output items of a response amount to.
pub open spec fn gathered(output: Seq<Json>) -> GatheredView
    decreases output.len(),
{
    if output.len() == 0 {
        GatheredView {
            text: Seq::empty(),
            tool_calls: Seq::empty(),
            summaries: Seq::empty(),
            states: Seq::empty(),
        }
    } else {
        with_item(gathered(output.drop_last()), output.last())
    }
}

struct Gathered {
    text: String,
    tool_calls: Vec<ToolCall>,
    summaries: Vec<String>,
    states: Vec<OpaqueReasoningState>,
}

impl DeepView for Gathered {
    type V = GatheredView;

    closed spec fn deep_view(&self) -> GatheredView {
        GatheredView {
            text: self.text@,
            tool_calls: self.tool_calls.deep_view(),
            summaries: self.summaries.deep_view(),
            states: self.states.deep_view(),
        }
    }
}

impl Gathered {
    fn take_item(&mut self, item: &Value)
        ensures
            final(self).deep_view() == with_item(old(self).deep_view(), json_view(*item)),
    {
        if json::text_at_is(item, "type", "message") {
            let t = read_message(json::at(item, "content"));
            self.text.append(t.as_str());
        } else if json::text_at_is(item, "type", "function_call") {
            if let Some(call) = read_call(item, self.tool_calls.len()) {
                lists::push_item(&mut self.tool_calls, call);
            }
        } else if json::text_at_is(item, "type", "reasoning") {
            read_summaries(&mut self.summaries, json::at(item, "summary"));
            if let Some(state) = safe_reasoning_state(item) {
                lists::push_item(&mut self.states, state);
            }
        }
    }
}

fn gather(output: &Value) -> (r: Gathered)
    ensures
        r.deep_view() == gathered(items(json_view(*output))),
{
    let mut r = Gathered {
        text: String::new(),
        tool_calls: lists::no_items(),
        summaries: lists::no_items(),
        states: lists::no_items(),
    };
    if let Some(list) = output.as_array() {
        let ghost all = list_view(list@);
        let mut i: usize = 0;
        assert(r.deep_view() == gathered(all.take(0)));
        while i < list.len()
            invariant
                i <= list@.len(),
                all == list_view(list@),
                r.deep_view() == gathered(all.take(i as int)),
            decreases list@.len() - i,
        {
            proof {
                assert(all.take(i + 1).drop_last() == all.take(i as int));
                assert(all.take(i + 1).last() == json_view(list@[i as int]));
            }
            r.take_item(&list[i]);
            i += 1;
        }
        assert(all.take(i as int) == all);
    }
    r
}

// ---- The whole response ----

/// Why a response ended, in terms of no provider in particular.
pub open spec fn finish_of(data: Json, has_tools: bool) -> Seq<char> {
    if has_tools {
        "tool_calls"@
    } else if member(data, "status"@) == Json::Text("incomplete"@) {
        let reason = member(member(data, "incomplete_details"@), "reason"@);
        if reason == Json::Text("max_output_tokens"@) {
            "length"@
        } else if reason == Json::Text("content_filter"@) {
            "content_filter"@
        } else {
            "unknown"@
        }
    } else if text(member(data, "status"@)) is None || member(data, "status"@) == Json::Text(
        "completed"@,
    ) {
        "stop"@
    } else {
        "unknown"@
    }
}

/// Why a response ended, in terms of no provider in particular.
pub fn response_finish(data: &Value, has_tools: bool) -> (r: &'static str)
    ensures
        r@ == finish_of(json_view(*data), has_tools),
{
    if has_tools {
        return "tool_calls";
    }
    if json::text_at_is(data, "status", "incomplete") {
        let details = json::at(data, "incomplete_details");
        if json::text_at_is(details, "reason", "max_output_tokens") {
            return "length";
        }
        if json::text_at_is(details, "reason", "content_filter") {
            return "content_filter";
        }
        return "unknown";
    }
    if json::text_at(data, "status").is_none() || json::text_at_is(data, "status", "completed") {
        "stop"
    } else {
        "unknown"
    }
}

/// Whether a response tells of a failure: by its status, or by an error in it.
pub open spec fn has_failed(data: Json) -> bool {
    ||| member(data, "status"@) == Json::Text("failed"@)
    ||| member(data, "status"@) == Json::Text("cancelled"@)
    ||| member(data, "error"@) != Json::Null
}

/// The reasoning that is handed on: summaries always, state only where tool calls follow from it.
pub open spec fn reasoning_of(found: GatheredView) -> Option<ReasoningInfoView> {
    let continuation = if found.tool_calls.len() > 0 && found.states.len() > 0 {
        Some(found.states)
    } else {
        None
    };
    if found.summaries.len() == 0 && continuation is None {
        None
    } else {
        Some(
            ReasoningInfoView {
                summary: if found.summaries.len() == 0 {
                    None
                } else {
                    Some(joined(found.summaries, "\n\n"@))
                },
                continuation,
            },
        )
    }
}

/// What a response amounts to: an error if it tells of a failure, else what its output items and
/// its usage say.
pub open spec fn result_of(data: Json) -> Result<AdapterResultView, PriestErrorView> {
    if has_failed(data) {
        Err(failure(failure_text(data)))
    } else {
        let found = gathered(items(member(data, "output"@)));
        let usage = member(data, "usage"@);
        Ok(
            AdapterResultView {
                text: found.text,
                finish_reason: Some(finish_of(data, found.tool_calls.len() > 0)),
                input_tokens: unsigned_32(member(usage, "input_tokens"@)),
                output_tokens: unsigned_32(member(usage, "output_tokens"@)),
                cached_input_tokens: unsigned_32(
                    member(member(usage, "input_tokens_details"@), "cached_tokens"@),
                ),
                reasoning_tokens: unsigned_32(
                    member(member(usage, "output_tokens_details"@), "reasoning_tokens"@),
                ),
                tool_calls: if found.tool_calls.len() > 0 {
                    Some(found.tool_calls)
                } else {
                    None
                },
                reasoning: reasoning_of(found),
            },
        )
    }
}

/// Reads a complete response.
pub fn parse_response(data: &Value) -> (r: Result<AdapterResult, PriestError>)
    ensures
        result_view(r) == result_of(json_view(*data)),
{
    if json::text_at_is(data, "status", "failed") || json::text_at_is(data, "status", "cancelled")
        || !json::at(data, "error").is_null() {
        return Err(response_error(data));
    }
    let found = gather(json::at(data, "output"));
    let ghost found_view = found.deep_view();
    let has_tools = found.tool_calls.len() > 0;
    let continuation = if has_tools && found.states.len() > 0 {
        Some(found.states)
    } else {
        None
    };
    let reasoning = if found.summaries.len() == 0 && continuation.is_none() {
        None
    } else {
        Some(
            ReasoningInfo {
                summary: if found.summaries.len() == 0 {
                    None
                } else {
                    Some(text::join(&found.summaries, "\n\n"))
                },
                continuation,
            },
        )
    };
    assert(reasoning.deep_view() == reasoning_of(found_view));
    let usage = json::at(data, "usage");
    Ok(
        AdapterResult {
            text: found.text,
            finish_reason: Some(response_finish(data, has_tools).to_owned()),
            input_tokens: json::unsigned_at(usage, "input_tokens"),
            output_tokens: json::unsigned_at(usage, "output_tokens"),
            cached_input_tokens: json::unsigned_at(
                json::at(usage, "input_tokens_details"),
                "cached_tokens",
            ),
            reasoning_tokens: json::unsigned_at(
                json::at(usage, "output_tokens_details"),
                "reasoning_tokens",
            ),
            tool_calls: if has_tools {
                Some(found.tool_calls)
            } else {
                None
            },
            reasoning,
        },
    )
}

/// What an HTTP answer amounts to: a refusal is an error that tells status and body, a body that is
/// no JSON is an error that tells why, and any other body is read as a response.
pub open spec fn answer_of(
    status: u16,
    status_text: Seq<char>,
    body: Seq<char>,
) -> Result<AdapterResultView, PriestErrorView> {
    if !is_success(status) {
        Err(failure("HTTP "@ + status_text + ": "@ + body))
    } else {
        match json_of_text(body) {
            Ok(data) => result_of(data),
            Err(reason) => Err(failure(reason)),
        }
    }
}

/// The error for an answer whose status is no success.
pub fn refusal(status_text: &str, body: &str) -> (r: PriestError)
    ensures
        r.deep_view() == failure("HTTP "@ + status_text@ + ": "@ + body@),
{
    provider_error("HTTP ".to_owned().concat(status_text).concat(": ").concat(body).as_str())
}

/// Reads an HTTP answer. The status is given as its number and as its text.
pub fn read_answer(status: u16, status_text: &str, body: &str) -> (r: Result<
    AdapterResult,
    PriestError,
>)
    ensures
        result_view(r) == answer_of(status, status_text@, body@),
{
    if status < 200 || status >= 300 {
        return Err(refusal(status_text, body));
    }
    match json::parse(body) {
        Ok(data) => parse_response(&data),
        Err(reason) => Err(provider_error(reason.as_str())),
    }
}

} // verus!
