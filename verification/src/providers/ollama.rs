//! Ollama's chat API.

use crate::context_builder::{Message, MessageView};
use crate::errors::{PriestError, PriestErrorView};
use crate::json;
use crate::json::{
    json_of_text, json_view, list_view, member, members, no_members, object_view, text,
    text_or_null, with_member, Json,
};
use crate::lists;
use crate::providers::adapter::{
    options_or_none, AdapterCallOptions, AdapterCallOptionsView, AdapterResult, AdapterResultView,
};
use crate::providers::wire;
use crate::providers::wire::{function_tools, plain_wire_message};
use crate::schema::config::{PriestConfig, PriestConfigView};
use crate::schema::reasoning::{ReasoningConfig, ReasoningEffort};
use crate::schema::request::{OutputSpec, OutputSpecView};
use crate::schema::tools::{synthesize_id, synthesized_id, ToolCall, ToolCallView};
use crate::text;
use crate::text::trimmed;
use serde_json::Value;
use vstd::prelude::*;
use vstd::utf8::{decode_utf8, valid_utf8};

verus! {

// ---- Settings ----

/// The settings of an Ollama provider.
#[derive(Debug)]
pub struct OllamaProvider {
    pub base_url: String,
}

impl DeepView for OllamaProvider {
    type V = Seq<char>;

    open spec fn deep_view(&self) -> Seq<char> {
        self.base_url@
    }
}

impl OllamaProvider {
    /// A place.
    pub fn new(base_url: &str) -> (r: Self)
        ensures
            r.deep_view() == base_url@,
    {
        OllamaProvider { base_url: base_url.to_owned() }
    }

    /// Where requests are posted to.
    pub fn url(&self) -> (r: String)
        ensures
            r@ == self.deep_view() + "/api/chat"@,
    {
        self.base_url.clone().concat("/api/chat")
    }
}

impl Default for OllamaProvider {
    fn default() -> (r: Self)
        ensures
            r.deep_view() == "http://localhost:11434"@,
    {
        OllamaProvider::new("http://localhost:11434")
    }
}

// ---- Requests ----

/// A tool call of the assistant. Its id, which was synthesized, is left out.
pub open spec fn wire_call(call: ToolCallView) -> Json {
    Json::Object(
        map![
            "function"@ => Json::Object(map![
                "name"@ => Json::Text(call.name),
                "arguments"@ => Json::Object(call.arguments),
            ]),
        ],
    )
}

fn write_call(call: &ToolCall) -> (r: Value)
    ensures
        json_view(r) == wire_call(call.deep_view()),
{
    let mut function: serde_json::Map<String, Value> = serde_json::Map::new();
    json::put(&mut function, "name", json::from_text(call.name.as_str()));
    json::put(&mut function, "arguments", json::from_object(call.arguments.clone()));
    let mut object: serde_json::Map<String, Value> = serde_json::Map::new();
    json::put(&mut object, "function", json::from_object(function));
    json::from_object(object)
}

fn write_calls(calls: &Vec<ToolCall>) -> (r: Value)
    ensures
        json_view(r) == Json::List(
            Seq::new(calls.deep_view().len(), |i: int| wire_call(calls.deep_view()[i])),
        ),
{
    let ghost all = Seq::new(calls.deep_view().len(), |i: int| wire_call(calls.deep_view()[i]));
    let mut r: Vec<Value> = Vec::new();
    let mut i: usize = 0;
    assert(list_view(r@) =~= all.take(0));
    while i < calls.len()
        invariant
            i <= calls@.len(),
            all == Seq::new(
                calls.deep_view().len(),
                |i: int| wire_call(calls.deep_view()[i]),
            ),
            list_view(r@) == all.take(i as int),
        decreases calls@.len() - i,
    {
        assert(all[i as int] == wire_call(calls@[i as int].deep_view()));
        json::push_value(&mut r, write_call(&calls[i]));
        i += 1;
        assert(list_view(r@) =~= all.take(i as int));
    }
    assert(all.take(i as int) =~= all);
    json::from_list(r)
}

/// A message: a tool's result with the tool's name, by which it is told which call it answers; the
/// assistant's tool calls with what was said; or text.
pub open spec fn wire_message(message: MessageView) -> Json {
    if message.role == "tool"@ {
        Json::Object(
            map![
                "role"@ => Json::Text("tool"@),
                "content"@ => Json::Text(message.content),
                "tool_name"@ => text_or_null(message.name),
            ],
        )
    } else if message.role == "assistant"@ && message.tool_calls is Some
        && message.tool_calls->0.len() > 0 {
        let calls = message.tool_calls->0;
        Json::Object(
            map![
                "role"@ => Json::Text("assistant"@),
                "content"@ => Json::Text(message.content),
                "tool_calls"@ => Json::List(Seq::new(calls.len(), |i: int| wire_call(calls[i]))),
            ],
        )
    } else {
        plain_wire_message(message.role, message.content)
    }
}

fn write_message(message: &Message) -> (r: Value)
    ensures
        json_view(r) == wire_message(message.deep_view()),
{
    let mut object: serde_json::Map<String, Value> = serde_json::Map::new();
    if text::same(message.role.as_str(), "tool") {
        json::put(&mut object, "role", json::from_text("tool"));
        json::put(&mut object, "content", json::from_text(message.content.as_str()));
        json::put(&mut object, "tool_name", json::from_optional_text(&message.name));
        return json::from_object(object);
    }
    if text::same(message.role.as_str(), "assistant") {
        if let Some(calls) = &message.tool_calls {
            if calls.len() > 0 {
                json::put(&mut object, "role", json::from_text("assistant"));
                json::put(&mut object, "content", json::from_text(message.content.as_str()));
                json::put(&mut object, "tool_calls", write_calls(calls));
                return json::from_object(object);
            }
        }
    }
    wire::write_plain_message(message.role.as_str(), message.content.as_str())
}

/// Messages as they go over the wire.
pub open spec fn wire_messages(messages: Seq<MessageView>) -> Seq<Json> {
    Seq::new(messages.len(), |i: int| wire_message(messages[i]))
}

/// Messages as they go over the wire.
pub fn build_wire_messages(messages: &[Message]) -> (r: Vec<Value>)
    ensures
        list_view(r@) == wire_messages(messages.deep_view()),
{
    let ghost all = wire_messages(messages.deep_view());
    let mut r: Vec<Value> = Vec::new();
    let mut i: usize = 0;
    assert(list_view(r@) =~= all.take(0));
    while i < messages.len()
        invariant
            i <= messages@.len(),
            all == wire_messages(messages.deep_view()),
            list_view(r@) == all.take(i as int),
        decreases messages@.len() - i,
    {
        assert(all[i as int] == wire_message(messages@[i as int].deep_view()));
        json::push_value(&mut r, write_message(&messages[i]));
        i += 1;
        assert(list_view(r@) =~= all.take(i as int));
    }
    assert(all.take(i as int) =~= all);
    r
}

/// What is asked of the model's thinking: nothing, on or off, or a named effort. Two efforts have
/// no name here.
pub open spec fn think_json(reasoning: Option<ReasoningConfig>) -> Result<
    Option<Json>,
    PriestErrorView,
> {
    match reasoning {
        None => Ok(None),
        Some(r) => if r.enabled == Some(false) || r.effort == Some(ReasoningEffort::Off) {
            Ok(Some(Json::Bool(false)))
        } else if r.effort == Some(ReasoningEffort::Minimal) || r.effort == Some(
            ReasoningEffort::XHigh,
        ) {
            Err(
                PriestErrorView::RequestInvalid {
                    message: "Ollama does not define the reasoning effort '"@ + r.effort->0.name()
                        + "'"@,
                },
            )
        } else if r.effort is Some {
            Ok(Some(Json::Text(r.effort->0.name())))
        } else if r.enabled == Some(true) {
            Ok(Some(Json::Bool(true)))
        } else {
            Ok(None)
        },
    }
}

fn apply_reasoning(payload: &mut serde_json::Map<String, Value>, config: &PriestConfig) -> (r:
    Result<(), PriestError>)
    ensures
        match r {
            Ok(_) => think_json(config.reasoning) is Ok && object_view(*final(payload))
                == with_member(
                object_view(*old(payload)),
                "think"@,
                think_json(config.reasoning)->Ok_0,
            ),
            Err(e) => think_json(config.reasoning) is Err && think_json(
                config.reasoning,
            )->Err_0 == e.deep_view() && object_view(*final(payload)) == object_view(*old(payload)),
        },
{
    let reasoning = match config.reasoning {
        Some(reasoning) => reasoning,
        None => {
            return Ok(());
        },
    };
    if let Some(false) = reasoning.enabled {
        json::put(payload, "think", json::from_bool(false));
        return Ok(());
    }
    match reasoning.effort {
        Some(ReasoningEffort::Off) => {
            json::put(payload, "think", json::from_bool(false));
        },
        Some(ReasoningEffort::Minimal) | Some(ReasoningEffort::XHigh) => {
            let effort = match reasoning.effort {
                Some(effort) => effort.as_str(),
                None => "",
            };
            return Err(
                PriestError::RequestInvalid {
                    message: "Ollama does not define the reasoning effort '".to_owned().concat(
                        effort,
                    ).concat("'"),
                },
            );
        },
        Some(effort) => {
            json::put(payload, "think", json::from_text(effort.as_str()));
        },
        None => {
            if let Some(true) = reasoning.enabled {
                json::put(payload, "think", json::from_bool(true));
            }
        },
    }
    Ok(())
}

/// The output format that is asked for, if any is. A schema goes before a format.
pub open spec fn format_json(output: OutputSpecView) -> Option<Json> {
    match output.json_schema {
        Some(schema) => Some(schema),
        None => if output.provider_format == Some("json"@) {
            Some(Json::Text("json"@))
        } else {
            None
        },
    }
}

fn write_format(output: &OutputSpec) -> (r: Option<Value>)
    ensures
        json::optional_view(r) == format_json(output.deep_view()),
{
    if let Some(schema) = &output.json_schema {
        return Some(schema.clone());
    }
    if let Some(provider_format) = &output.provider_format {
        if text::same(provider_format.as_str(), "json") {
            return Some(json::from_text("json"));
        }
    }
    None
}

/// A request: the caller's options over everything else. There is no choice among tools.
pub open spec fn payload_of(
    messages: Seq<MessageView>,
    config: PriestConfigView,
    output: OutputSpecView,
    options: Option<AdapterCallOptionsView>,
    stream: bool,
) -> Result<Json, PriestErrorView> {
    let plain = no_members().insert("model"@, Json::Text(config.model)).insert(
        "messages"@,
        Json::List(wire_messages(messages)),
    ).insert("stream"@, Json::Bool(stream));
    let tools = options_or_none(options).tools;
    let tooled = if tools.len() > 0 {
        plain.insert("tools"@, function_tools(tools))
    } else {
        plain
    };
    let limited = with_member(
        tooled,
        "options"@,
        match config.max_output_tokens {
            Some(n) => Some(Json::Object(map!["num_predict"@ => Json::Unsigned(n as u64)])),
            None => None,
        },
    );
    match think_json(config.reasoning) {
        Ok(think) => Ok(
            Json::Object(
                with_member(
                    with_member(limited, "think"@, think),
                    "format"@,
                    format_json(output),
                ).union_prefer_right(config.provider_options),
            ),
        ),
        Err(e) => Err(e),
    }
}

/// Writes a request, or says why it cannot be made.
pub fn build_payload(
    messages: &[Message],
    config: &PriestConfig,
    output_spec: &OutputSpec,
    options: Option<&AdapterCallOptions>,
    stream: bool,
) -> (r: Result<Value, PriestError>)
    ensures
        ({
            let expected = payload_of(
                messages.deep_view(),
                config.deep_view(),
                output_spec.deep_view(),
                options.deep_view(),
                stream,
            );
            match r {
                Ok(value) => expected is Ok && expected->Ok_0 == json_view(value),
                Err(e) => expected is Err && expected->Err_0 == e.deep_view(),
            }
        }),
{
    let mut payload: serde_json::Map<String, Value> = serde_json::Map::new();
    json::put(&mut payload, "model", json::from_text(config.model.as_str()));
    json::put(&mut payload, "messages", json::from_list(build_wire_messages(messages)));
    json::put(&mut payload, "stream", json::from_bool(stream));
    if let Some(given) = options {
        if given.tools.len() > 0 {
            json::put(&mut payload, "tools", wire::write_function_tools(&given.tools));
        }
    }
    if let Some(n) = config.max_output_tokens {
        let mut limits: serde_json::Map<String, Value> = serde_json::Map::new();
        json::put(&mut limits, "num_predict", json::from_unsigned(n as u64));
        json::put(&mut payload, "options", json::from_object(limits));
    }
    if let Err(e) = apply_reasoning(&mut payload, config) {
        return Err(e);
    }
    if let Some(format) = write_format(output_spec) {
        json::put(&mut payload, "format", format);
    }
    Ok(json::from_object(json::overlay(payload, &config.provider_options)))
}

/// The caller's options reach the provider as they are, whatever else the request says, so long as
/// the request can be made at all.
pub proof fn law_options_win(
    messages: Seq<MessageView>,
    config: PriestConfigView,
    output: OutputSpecView,
    options: Option<AdapterCallOptionsView>,
    stream: bool,
    key: Seq<char>,
)
    requires
        config.provider_options.contains_key(key),
        payload_of(messages, config, output, options, stream) is Ok,
    ensures
        members(payload_of(messages, config, output, options, stream)->Ok_0).contains_key(key),
        members(payload_of(messages, config, output, options, stream)->Ok_0)[key]
            == config.provider_options[key],
{
}

/// A schema goes before a format: with one, the format that is asked for makes no difference.
pub proof fn law_schema_goes_first(
    messages: Seq<MessageView>,
    config: PriestConfigView,
    output: OutputSpecView,
    options: Option<AdapterCallOptionsView>,
    stream: bool,
    format: Option<Seq<char>>,
)
    requires
        output.json_schema is Some,
    ensures
        payload_of(messages, config, output, options, stream) == payload_of(
            messages,
            config,
            OutputSpecView { provider_format: format, ..output },
            options,
            stream,
        ),
{
}

// ---- Answers ----

/// Why a response ended, in terms of no provider in particular.
pub open spec fn finish_of(reason: Option<Seq<char>>) -> Option<Seq<char>> {
    match reason {
        Some(r) => Some(
            if r == "stop"@ || r == "load"@ {
                "stop"@
            } else if r == "length"@ {
                "length"@
            } else {
                "unknown"@
            },
        ),
        None => None,
    }
}

/// Why a response ended, in terms of no provider in particular.
pub fn map_done_reason(r: Option<&str>) -> (mapped: Option<String>)
    ensures
        mapped.deep_view() == finish_of(r.deep_view()),
{
    match r {
        Some(reason) => Some(
            if text::same(reason, "stop") || text::same(reason, "load") {
                "stop".to_owned()
            } else if text::same(reason, "length") {
                "length".to_owned()
            } else {
                "unknown".to_owned()
            },
        ),
        None => None,
    }
}

/// The call of a function: none if it has no name.
pub open spec fn call_of(function: Json, position: nat) -> Option<ToolCallView> {
    match text(member(function, "name"@)) {
        Some(name) => Some(
            ToolCallView {
                id: synthesized_id(position),
                name,
                arguments: members(member(function, "arguments"@)),
            },
        ),
        None => None,
    }
}

/// The tool calls that items ask for, numbered in order. Nothing at all where an item has no
/// function.
pub open spec fn calls_in(raw: Seq<Json>) -> Option<Seq<ToolCallView>>
    decreases raw.len(),
{
    if raw.len() == 0 {
        Some(Seq::empty())
    } else {
        match calls_in(raw.drop_last()) {
            Some(before) => if members(raw.last()).contains_key("function"@) {
                match call_of(member(raw.last(), "function"@), before.len()) {
                    Some(call) => Some(before.push(call)),
                    None => Some(before),
                }
            } else {
                None
            },
            None => None,
        }
    }
}

/// The tool calls that items ask for, if there are items and they ask for any.
pub open spec fn tool_calls_of(raw: Option<Seq<Json>>) -> Option<Seq<ToolCallView>> {
    match raw {
        Some(items) => match calls_in(items) {
            Some(calls) if calls.len() > 0 => Some(calls),
            _ => None,
        },
        None => None,
    }
}

proof fn lemma_calls_in_prefix(raw: Seq<Json>, n: int)
    requires
        0 <= n <= raw.len(),
        calls_in(raw.take(n)) is None,
    ensures
        calls_in(raw) is None,
    decreases raw.len(),
{
    if n == raw.len() {
        assert(raw.take(n) == raw);
    } else {
        assert(raw.drop_last().take(n) == raw.take(n));
        lemma_calls_in_prefix(raw.drop_last(), n);
    }
}

fn read_call(function: &Value, position: usize) -> (r: Option<ToolCall>)
    ensures
        r.deep_view() == call_of(json_view(*function), position as nat),
{
    match json::text_at(function, "name") {
        Some(name) => Some(
            ToolCall {
                id: synthesize_id(position),
                name,
                arguments: json::members_of(json::at(function, "arguments")),
            },
        ),
        None => None,
    }
}

/// The value under a member's name, if the value that has it is an object with such a member.
fn member_of<'a>(value: &'a Value, key: &str) -> (r: Option<&'a Value>)
    ensures
        match r {
            Some(v) => members(json_view(*value)).contains_key(key@) && json_view(*v) == member(
                json_view(*value),
                key@,
            ),
            None => !members(json_view(*value)).contains_key(key@),
        },
{
    match value.as_object() {
        Some(object) => json::get(object, key),
        None => None,
    }
}

/// Reads the tool calls of a complete answer. Ids are synthesized in order.
pub fn parse_wire_tool_calls(raw: Option<&Vec<Value>>) -> (r: Option<Vec<ToolCall>>)
    ensures
        r.deep_view() == tool_calls_of(
            match raw {
                Some(values) => Some(list_view(values@)),
                None => None,
            },
        ),
{
    let values = match raw {
        Some(values) => values,
        None => {
            return None;
        },
    };
    let ghost all = list_view(values@);
    let mut calls: Vec<ToolCall> = lists::no_items();
    let mut i: usize = 0;
    while i < values.len()
        invariant
            i <= values@.len(),
            all == list_view(values@),
            raw == Some(values),
            calls_in(all.take(i as int)) == Some(calls.deep_view()),
        decreases values@.len() - i,
    {
        proof {
            assert(all.take(i + 1).drop_last() == all.take(i as int));
            assert(all.take(i + 1).last() == json_view(values@[i as int]));
        }
        match member_of(&values[i], "function") {
            Some(function) => {
                if let Some(call) = read_call(function, calls.len()) {
                    lists::push_item(&mut calls, call);
                }
            },
            None => {
                proof {
                    lemma_calls_in_prefix(all, i + 1);
                }
                return None;
            },
        }
        i += 1;
    }
    assert(all.take(i as int) == all);
    if calls.len() == 0 {
        None
    } else {
        Some(calls)
    }
}

/// A complete answer.
#[derive(Debug)]
pub struct OllamaResponse {
    pub content: String,
    pub tool_calls: Option<Vec<Value>>,
    pub prompt_eval_count: Option<u32>,
    pub eval_count: Option<u32>,
    pub done_reason: Option<String>,
}

/// What an `OllamaResponse` holds.
pub struct OllamaResponseView {
    pub content: Seq<char>,
    pub tool_calls: Option<Seq<Json>>,
    pub prompt_eval_count: Option<u32>,
    pub eval_count: Option<u32>,
    pub done_reason: Option<Seq<char>>,
}

impl DeepView for OllamaResponse {
    type V = OllamaResponseView;

    open spec fn deep_view(&self) -> OllamaResponseView {
        OllamaResponseView {
            content: self.content@,
            tool_calls: match self.tool_calls {
                Some(values) => Some(list_view(values@)),
                None => None,
            },
            prompt_eval_count: self.prompt_eval_count,
            eval_count: self.eval_count,
            done_reason: self.done_reason.deep_view(),
        }
    }
}

/// What an answer amounts to. The model's raw thinking is not handed on.
pub open spec fn result_of(data: OllamaResponseView) -> AdapterResultView {
    let calls = tool_calls_of(data.tool_calls);
    AdapterResultView {
        text: data.content,
        finish_reason: if calls is Some {
            Some("tool_calls"@)
        } else {
            finish_of(data.done_reason)
        },
        input_tokens: data.prompt_eval_count,
        output_tokens: data.eval_count,
        cached_input_tokens: None,
        reasoning_tokens: None,
        tool_calls: calls,
        reasoning: None,
    }
}

/// Reads a complete answer.
pub fn read_response(data: &OllamaResponse) -> (r: AdapterResult)
    ensures
        r.deep_view() == result_of(data.deep_view()),
{
    let tool_calls = parse_wire_tool_calls(data.tool_calls.as_ref());
    let finish_reason = if tool_calls.is_some() {
        Some("tool_calls".to_owned())
    } else {
        match &data.done_reason {
            Some(reason) => map_done_reason(Some(reason.as_str())),
            None => map_done_reason(None),
        }
    };
    AdapterResult {
        text: data.content.clone(),
        finish_reason,
        input_tokens: data.prompt_eval_count,
        output_tokens: data.eval_count,
        cached_input_tokens: None,
        reasoning_tokens: None,
        tool_calls,
        reasoning: None,
    }
}

// ---- Streams ----

/// The text that a value of a stream adds: none from the last one, and none where it is empty.
pub open spec fn value_text(value: Json) -> Option<Seq<char>> {
    match text(member(member(value, "message"@), "content"@)) {
        Some(t) if t.len() > 0 && member(value, "done"@) != Json::Bool(true) => Some(t),
        _ => None,
    }
}

/// The text that a chunk of a stream adds: that of the value that it is, where it is UTF-8 and
/// JSON.
pub open spec fn chunk_text(bytes: Seq<u8>) -> Option<Seq<char>> {
    if valid_utf8(bytes) && trimmed(decode_utf8(bytes)).len() > 0 {
        match json_of_text(trimmed(decode_utf8(bytes))) {
            Ok(value) => value_text(value),
            Err(_) => None,
        }
    } else {
        None
    }
}

/// The text of a value of a stream.
pub fn text_of_value(value: &Value) -> (r: Option<String>)
    ensures
        r.deep_view() == value_text(json_view(*value)),
{
    if let Some(true) = json::at(value, "done").as_bool() {
        return None;
    }
    match json::text_at(json::at(value, "message"), "content") {
        Some(t) => if t.as_str().is_empty() {
            None
        } else {
            Some(t)
        },
        None => None,
    }
}

/// Reads a chunk of a stream as text.
pub fn read_chunk(bytes: &[u8]) -> (r: Option<String>)
    ensures
        r.deep_view() == chunk_text(bytes@),
{
    let chunk = match text::strict_text(bytes) {
        Some(chunk) => chunk,
        None => {
            return None;
        },
    };
    let line = text::trim(chunk.as_str());
    if line.as_str().is_empty() {
        return None;
    }
    match json::parse(line.as_str()) {
        Ok(value) => text_of_value(&value),
        Err(_) => None,
    }
}

} // verus!
