//! OpenAI's Chat Completions API and those made after it.

use crate::context_builder::{Message, MessageView};
use crate::errors::{result_view, PriestError, PriestErrorView};
use crate::json;
use crate::json::{
    compact_text, item, json_of_text, json_view, list_view, member, no_members, object_view, text,
    text_or_null, with_member, Json,
};
use crate::lists;
use crate::providers::adapter::{
    options_or_none, provider_failure, AdapterCallOptions, AdapterCallOptionsView, AdapterResult,
    AdapterResultView,
};
use crate::providers::wire;
use crate::providers::wire::{function_tools, plain_wire_message};
use crate::schema::config::{PriestConfig, PriestConfigView};
use crate::schema::request::{OutputSpec, OutputSpecView};
use crate::schema::tools::{
    arguments_in_text, parse_tool_arguments, synthesize_id, synthesized_id, write_tool_arguments,
    ToolCall, ToolCallView, ToolChoice, ToolChoiceView,
};
use crate::text;
use crate::text::{if_not_empty, line_texts, trimmed, utf8_lossy, without_prefix};
use serde_json::Value;
use vstd::prelude::*;

verus! {

// ---- Settings ----

/// The settings of a Chat Completions provider.
#[derive(Debug)]
pub struct OpenAICompatProvider {
    pub base_url: String,
    pub api_key: String,
}

/// What an `OpenAICompatProvider` holds.
pub struct OpenAICompatProviderView {
    pub base_url: Seq<char>,
    pub api_key: Seq<char>,
}

impl DeepView for OpenAICompatProvider {
    type V = OpenAICompatProviderView;

    open spec fn deep_view(&self) -> OpenAICompatProviderView {
        OpenAICompatProviderView { base_url: self.base_url@, api_key: self.api_key@ }
    }
}

impl OpenAICompatProvider {
    /// A place, with a key.
    pub fn new(base_url: &str, api_key: &str) -> (r: Self)
        ensures
            r.deep_view() == (OpenAICompatProviderView { base_url: base_url@, api_key: api_key@ }),
    {
        OpenAICompatProvider { base_url: base_url.to_owned(), api_key: api_key.to_owned() }
    }

    /// Where requests are posted to.
    pub fn url(&self) -> (r: String)
        ensures
            r@ == self.deep_view().base_url + "/v1/chat/completions"@,
    {
        self.base_url.clone().concat("/v1/chat/completions")
    }
}

// ---- Requests ----

/// A tool call of the assistant.
pub open spec fn wire_call(call: ToolCallView) -> Json {
    Json::Object(
        map![
            "id"@ => Json::Text(call.id),
            "type"@ => Json::Text("function"@),
            "function"@ => Json::Object(map![
                "name"@ => Json::Text(call.name),
                "arguments"@ => Json::Text(compact_text(Json::Object(call.arguments))),
            ]),
        ],
    )
}

fn write_call(call: &ToolCall) -> (r: Value)
    ensures
        json_view(r) == wire_call(call.deep_view()),
{
    let arguments = write_tool_arguments(&call.arguments);
    let mut function: serde_json::Map<String, Value> = serde_json::Map::new();
    json::put(&mut function, "name", json::from_text(call.name.as_str()));
    json::put(&mut function, "arguments", json::from_text(arguments.as_str()));
    let mut object: serde_json::Map<String, Value> = serde_json::Map::new();
    json::put(&mut object, "id", json::from_text(call.id.as_str()));
    json::put(&mut object, "type", json::from_text("function"));
    json::put(&mut object, "function", json::from_object(function));
    json::from_object(object)
}

/// A message: a tool's result with the id of the call that it answers, the assistant's tool calls
/// with what was said or null, or text.
pub open spec fn wire_message(message: MessageView) -> Json {
    if message.role == "tool"@ {
        Json::Object(
            map![
                "role"@ => Json::Text("tool"@),
                "tool_call_id"@ => text_or_null(message.tool_call_id),
                "content"@ => Json::Text(message.content),
            ],
        )
    } else if message.role == "assistant"@ && message.tool_calls is Some
        && message.tool_calls->0.len() > 0 {
        let calls = message.tool_calls->0;
        Json::Object(
            map![
                "role"@ => Json::Text("assistant"@),
                "content"@ => if message.content.len() == 0 {
                    Json::Null
                } else {
                    Json::Text(message.content)
                },
                "tool_calls"@ => Json::List(Seq::new(calls.len(), |i: int| wire_call(calls[i]))),
            ],
        )
    } else {
        plain_wire_message(message.role, message.content)
    }
}

fn write_calls(calls: &Vec<ToolCall>) -> (r: Value)
    ensures
        json_view(r) == Json::List(
            Seq::new(calls.deep_view().len(), |i: int| wire_call(calls.deep_view()[i])),
        ),
{
    let ghost all = Seq::new(calls.deep_view().len(), |i: int| wire_call(calls.deep_view()[i]));
    let mut r: Vec<Value> = Vec::new();
    let mut i: usize = 0;
    assert(list_view(r@) =~= all.take(0));
    while i < calls.len()
        invariant
            i <= calls@.len(),
            all == Seq::new(
                calls.deep_view().len(),
                |i: int| wire_call(calls.deep_view()[i]),
            ),
            list_view(r@) == all.take(i as int),
        decreases calls@.len() - i,
    {
        assert(all[i as int] == wire_call(calls@[i as int].deep_view()));
        json::push_value(&mut r, write_call(&calls[i]));
        i += 1;
        assert(list_view(r@) =~= all.take(i as int));
    }
    assert(all.take(i as int) =~= all);
    json::from_list(r)
}

fn write_message(message: &Message) -> (r: Value)
    ensures
        json_view(r) == wire_message(message.deep_view()),
{
    let mut object: serde_json::Map<String, Value> = serde_json::Map::new();
    if text::same(message.role.as_str(), "tool") {
        json::put(&mut object, "role", json::from_text("tool"));
        json::put(&mut object, "tool_call_id", json::from_optional_text(&message.tool_call_id));
        json::put(&mut object, "content", json::from_text(message.content.as_str()));
        return json::from_object(object);
    }
    if text::same(message.role.as_str(), "assistant") {
        if let Some(calls) = &message.tool_calls {
            if calls.len() > 0 {
                let content = if message.content.as_str().is_empty() {
                    json::null()
                } else {
                    json::from_text(message.content.as_str())
                };
                json::put(&mut object, "role", json::from_text("assistant"));
                json::put(&mut object, "content", content);
                json::put(&mut object, "tool_calls", write_calls(calls));
                return json::from_object(object);
            }
        }
    }
    wire::write_plain_message(message.role.as_str(), message.content.as_str())
}

/// Messages as they go over the wire.
pub open spec fn wire_messages(messages: Seq<MessageView>) -> Seq<Json> {
    Seq::new(messages.len(), |i: int| wire_message(messages[i]))
}

/// Messages as they go over the wire.
pub fn build_wire_messages(messages: &[Message]) -> (r: Vec<Value>)
    ensures
        list_view(r@) == wire_messages(messages.deep_view()),
{
    let ghost all = wire_messages(messages.deep_view());
    let mut r: Vec<Value> = Vec::new();
    let mut i: usize = 0;
    assert(list_view(r@) =~= all.take(0));
    while i < messages.len()
        invariant
            i <= messages@.len(),
            all == wire_messages(messages.deep_view()),
            list_view(r@) == all.take(i as int),
        decreases messages@.len() - i,
    {
        assert(all[i as int] == wire_message(messages@[i as int].deep_view()));
        json::push_value(&mut r, write_message(&messages[i]));
        i += 1;
        assert(list_view(r@) =~= all.take(i as int));
    }
    assert(all.take(i as int) =~= all);
    r
}

/// How the model is to choose among the tools.
pub open spec fn choice_json(choice: ToolChoiceView) -> Json {
    match choice {
        ToolChoiceView::Auto => Json::Text("auto"@),
        ToolChoiceView::Never => Json::Text("none"@),
        ToolChoiceView::Required => Json::Text("required"@),
        ToolChoiceView::Tool { name } => Json::Object(
            map![
                "type"@ => Json::Text("function"@),
                "function"@ => Json::Object(map!["name"@ => Json::Text(name)]),
            ],
        ),
    }
}

fn write_choice(choice: &ToolChoice) -> (r: Value)
    ensures
        json_view(r) == choice_json(choice.deep_view()),
{
    match choice {
        ToolChoice::Auto => json::from_text("auto"),
        ToolChoice::Never => json::from_text("none"),
        ToolChoice::Required => json::from_text("required"),
        ToolChoice::Tool { name } => {
            let mut function: serde_json::Map<String, Value> = serde_json::Map::new();
            json::put(&mut function, "name", json::from_text(name.as_str()));
            let mut object: serde_json::Map<String, Value> = serde_json::Map::new();
            json::put(&mut object, "type", json::from_text("function"));
            json::put(&mut object, "function", json::from_object(function));
            json::from_object(object)
        },
    }
}

/// A request with its tools, if it has any, and how to choose among them.
pub open spec fn with_tools(
    payload: Map<Seq<char>, Json>,
    options: AdapterCallOptionsView,
) -> Map<Seq<char>, Json> {
    if options.tools.len() == 0 {
        payload
    } else {
        with_member(
            payload.insert("tools"@, function_tools(options.tools)),
            "tool_choice"@,
            match options.tool_choice {
                Some(choice) => Some(choice_json(choice)),
                None => None,
            },
        )
    }
}

fn apply_tools(payload: &mut serde_json::Map<String, Value>, options: Option<&AdapterCallOptions>)
    ensures
        object_view(*final(payload)) == with_tools(
            object_view(*old(payload)),
            options_or_none(options.deep_view()),
        ),
{
    if let Some(given) = options {
        if given.tools.len() > 0 {
            json::put(payload, "tools", wire::write_function_tools(&given.tools));
            if let Some(choice) = &given.tool_choice {
                json::put(payload, "tool_choice", write_choice(choice));
            }
        }
    }
}

/// The output format that is asked for, if any is. A schema goes before a format.
pub open spec fn format_json(output: OutputSpecView) -> Option<Json> {
    match output.json_schema {
        Some(schema) => Some(
            Json::Object(
                map![
                    "type"@ => Json::Text("json_schema"@),
                    "json_schema"@ => Json::Object(map![
                        "name"@ => Json::Text(output.json_schema_name),
                        "schema"@ => schema,
                        "strict"@ => Json::Bool(output.json_schema_strict),
                    ]),
                ],
            ),
        ),
        None => if output.provider_format == Some("json"@) {
            Some(Json::Object(map!["type"@ => Json::Text("json_object"@)]))
        } else {
            None
        },
    }
}

fn write_format(output: &OutputSpec) -> (r: Option<Value>)
    ensures
        json::optional_view(r) == format_json(output.deep_view()),
{
    let mut format: serde_json::Map<String, Value> = serde_json::Map::new();
    if let Some(schema) = &output.json_schema {
        let mut described: serde_json::Map<String, Value> = serde_json::Map::new();
        json::put(&mut described, "name", json::from_text(output.json_schema_name.as_str()));
        json::put(&mut described, "schema", schema.clone());
        json::put(&mut described, "strict", json::from_bool(output.json_schema_strict));
        json::put(&mut format, "type", json::from_text("json_schema"));
        json::put(&mut format, "json_schema", json::from_object(described));
        return Some(json::from_object(format));
    }
    if let Some(provider_format) = &output.provider_format {
        if text::same(provider_format.as_str(), "json") {
            json::put(&mut format, "type", json::from_text("json_object"));
            return Some(json::from_object(format));
        }
    }
    None
}

/// A request: the caller's options over everything else. A streamed answer is asked to tell its
/// usage.
pub open spec fn payload_of(
    messages: Seq<MessageView>,
    config: PriestConfigView,
    output: OutputSpecView,
    options: Option<AdapterCallOptionsView>,
    stream: bool,
) -> Map<Seq<char>, Json> {
    let plain = no_members().insert("model"@, Json::Text(config.model)).insert(
        "messages"@,
        Json::List(wire_messages(messages)),
    );
    let tooled = with_tools(plain, options_or_none(options));
    let streamed = if stream {
        tooled.insert("stream"@, Json::Bool(true)).insert(
            "stream_options"@,
            Json::Object(map!["include_usage"@ => Json::Bool(true)]),
        )
    } else {
        tooled
    };
    let limited = with_member(
        streamed,
        "max_tokens"@,
        match config.max_output_tokens {
            Some(n) => Some(Json::Unsigned(n as u64)),
            None => None,
        },
    );
    with_member(limited, "response_format"@, format_json(output)).union_prefer_right(
        config.provider_options,
    )
}

/// Writes a request.
pub fn build_payload(
    messages: &[Message],
    config: &PriestConfig,
    output_spec: &OutputSpec,
    options: Option<&AdapterCallOptions>,
    stream: bool,
) -> (r: Value)
    ensures
        json_view(r) == Json::Object(
            payload_of(
                messages.deep_view(),
                config.deep_view(),
                output_spec.deep_view(),
                options.deep_view(),
                stream,
            ),
        ),
{
    let mut payload: serde_json::Map<String, Value> = serde_json::Map::new();
    json::put(&mut payload, "model", json::from_text(config.model.as_str()));
    json::put(&mut payload, "messages", json::from_list(build_wire_messages(messages)));
    apply_tools(&mut payload, options);
    if stream {
        let mut stream_options: serde_json::Map<String, Value> = serde_json::Map::new();
        json::put(&mut stream_options, "include_usage", json::from_bool(true));
        json::put(&mut payload, "stream", json::from_bool(true));
        json::put(&mut payload, "stream_options", json::from_object(stream_options));
    }
    if let Some(n) = config.max_output_tokens {
        json::put(&mut payload, "max_tokens", json::from_unsigned(n as u64));
    }
    if let Some(format) = write_format(output_spec) {
        json::put(&mut payload, "response_format", format);
    }
    json::from_object(json::overlay(payload, &config.provider_options))
}

/// The caller's options reach the provider as they are, whatever else the request says.
pub proof fn law_options_win(
    messages: Seq<MessageView>,
    config: PriestConfigView,
    output: OutputSpecView,
    options: Option<AdapterCallOptionsView>,
    stream: bool,
    key: Seq<char>,
)
    requires
        config.provider_options.contains_key(key),
    ensures
        payload_of(messages, config, output, options, stream).contains_key(key),
        payload_of(messages, config, output, options, stream)[key] == config.provider_options[key],
{
}

/// A schema goes before a format: with one, the format that is asked for makes no difference.
pub proof fn law_schema_goes_first(
    messages: Seq<MessageView>,
    config: PriestConfigView,
    output: OutputSpecView,
    options: Option<AdapterCallOptionsView>,
    stream: bool,
    format: Option<Seq<char>>,
)
    requires
        output.json_schema is Some,
    ensures
        payload_of(messages, config, output, options, stream) == payload_of(
            messages,
            config,
            OutputSpecView { provider_format: format, ..output },
            options,
            stream,
        ),
{
}

// ---- Answers ----

/// Why a response ended, in terms of no provider in particular.
pub open spec fn finish_of(reason: Option<Seq<char>>) -> Option<Seq<char>> {
    match reason {
        Some(r) => Some(
            if r == "stop"@ || r == "length"@ || r == "content_filter"@ || r == "tool_calls"@ {
                r
            } else {
                "unknown"@
            },
        ),
        None => None,
    }
}

/// Why a response ended, in terms of no provider in particular.
pub fn map_finish(r: Option<&str>) -> (mapped: Option<String>)
    ensures
        mapped.deep_view() == finish_of(r.deep_view()),
{
    match r {
        Some(reason) => Some(
            if text::same(reason, "stop") || text::same(reason, "length") || text::same(
                reason,
                "content_filter",
            ) || text::same(reason, "tool_calls") {
                reason.to_owned()
            } else {
                "unknown".to_owned()
            },
        ),
        None => None,
    }
}

/// The tool call that the item at a position asks for: none if it names no function.
pub open spec fn call_in(item: Json, position: nat) -> Option<ToolCallView> {
    let function = member(item, "function"@);
    match text(member(function, "name"@)) {
        Some(name) => Some(
            ToolCallView {
                id: match text(member(item, "id"@)) {
                    Some(id) => id,
                    None => synthesized_id(position),
                },
                name,
                arguments: match text(member(function, "arguments"@)) {
                    Some(arguments) => arguments_in_text(arguments),
                    None => no_members(),
                },
            },
        ),
        None => None,
    }
}

fn read_call(value: &Value, position: usize) -> (r: Option<ToolCall>)
    ensures
        r.deep_view() == call_in(json_view(*value), position as nat),
{
    let function = json::at(value, "function");
    match json::text_at(function, "name") {
        Some(name) => {
            let id = match json::text_at(value, "id") {
                Some(id) => id,
                None => synthesize_id(position),
            };
            let arguments = match json::text_at(function, "arguments") {
                Some(arguments) => parse_tool_arguments(arguments.as_str()),
                None => serde_json::Map::new(),
            };
            Some(ToolCall { id, name, arguments })
        },
        None => None,
    }
}

/// The tool calls that items ask for.
pub open spec fn calls_in(raw: Seq<Json>) -> Seq<ToolCallView>
    decreases raw.len(),
{
    if raw.len() == 0 {
        Seq::empty()
    } else {
        let before = calls_in(raw.drop_last());
        match call_in(raw.last(), (raw.len() - 1) as nat) {
            Some(call) => before.push(call),
            None => before,
        }
    }
}

/// The tool calls that items ask for, if there are items and they ask for any.
pub open spec fn tool_calls_of(raw: Option<Seq<Json>>) -> Option<Seq<ToolCallView>> {
    match raw {
        Some(items) if calls_in(items).len() > 0 => Some(calls_in(items)),
        _ => None,
    }
}

/// What optional values hold.
pub open spec fn raw_view(raw: Option<&Vec<Value>>) -> Option<Seq<Json>> {
    match raw {
        Some(values) => Some(list_view(values@)),
        None => None,
    }
}

/// Reads the tool calls of a complete answer. Arguments that are no JSON object become an empty
/// one.
pub fn parse_wire_tool_calls(raw: Option<&Vec<Value>>) -> (r: Option<Vec<ToolCall>>)
    ensures
        r.deep_view() == tool_calls_of(raw_view(raw)),
{
    let values = match raw {
        Some(values) => values,
        None => {
            return None;
        },
    };
    let ghost all = list_view(values@);
    let mut calls: Vec<ToolCall> = lists::no_items();
    let mut i: usize = 0;
    while i < values.len()
        invariant
            i <= values@.len(),
            all == list_view(values@),
            calls.deep_view() == calls_in(all.take(i as int)),
        decreases values@.len() - i,
    {
        proof {
            assert(all.take(i + 1).drop_last() == all.take(i as int));
            assert(all.take(i + 1).last() == json_view(values@[i as int]));
        }
        if let Some(call) = read_call(&values[i], i) {
            lists::push_item(&mut calls, call);
        }
        i += 1;
    }
    assert(all.take(i as int) == all);
    if calls.len() == 0 {
        None
    } else {
        Some(calls)
    }
}

/// A complete answer.
#[derive(Debug)]
pub struct OAIResponse {
    pub choices: Vec<OAIChoice>,
    pub usage: Option<OAIUsage>,
}

/// One of the answers to choose from.
#[derive(Debug)]
pub struct OAIChoice {
    pub content: Option<String>,
    pub tool_calls: Option<Vec<Value>>,
    pub finish_reason: Option<String>,
}

/// What an answer cost.
#[derive(Clone, Copy, Debug)]
pub struct OAIUsage {
    pub prompt_tokens: Option<u32>,
    pub completion_tokens: Option<u32>,
    /// Of the prompt's tokens those that the provider had in its cache.
    pub cached_tokens: Option<u32>,
}

/// What an `OAIChoice` holds.
pub struct OAIChoiceView {
    pub content: Option<Seq<char>>,
    pub tool_calls: Option<Seq<Json>>,
    pub finish_reason: Option<Seq<char>>,
}

impl DeepView for OAIChoice {
    type V = OAIChoiceView;

    open spec fn deep_view(&self) -> OAIChoiceView {
        OAIChoiceView {
            content: self.content.deep_view(),
            tool_calls: match self.tool_calls {
                Some(values) => Some(list_view(values@)),
                None => None,
            },
            finish_reason: self.finish_reason.deep_view(),
        }
    }
}

/// What an `OAIResponse` holds.
pub struct OAIResponseView {
    pub choices: Seq<OAIChoiceView>,
    pub usage: Option<OAIUsage>,
}

impl DeepView for OAIResponse {
    type V = OAIResponseView;

    open spec fn deep_view(&self) -> OAIResponseView {
        OAIResponseView { choices: self.choices.deep_view(), usage: self.usage }
    }
}

/// What an answer amounts to: its first choice, or an error where there is none.
pub open spec fn result_of(provider: Seq<char>, data: OAIResponseView) -> Result<
    AdapterResultView,
    PriestErrorView,
> {
    if data.choices.len() == 0 {
        Err(PriestErrorView::ProviderError { provider, message: "empty choices"@ })
    } else {
        let choice = data.choices[0];
        let calls = tool_calls_of(choice.tool_calls);
        Ok(
            AdapterResultView {
                text: match choice.content {
                    Some(t) => t,
                    None => ""@,
                },
                finish_reason: if calls is Some {
                    Some("tool_calls"@)
                } else {
                    finish_of(choice.finish_reason)
                },
                input_tokens: match data.usage {
                    Some(usage) => usage.prompt_tokens,
                    None => None,
                },
                output_tokens: match data.usage {
                    Some(usage) => usage.completion_tokens,
                    None => None,
                },
                cached_input_tokens: match data.usage {
                    Some(usage) => usage.cached_tokens,
                    None => None,
                },
                reasoning_tokens: None,
                tool_calls: calls,
                reasoning: None,
            },
        )
    }
}

/// Reads a complete answer of a provider.
pub fn read_response(provider: &str, data: &OAIResponse) -> (r: Result<AdapterResult, PriestError>)
    ensures
        result_view(r) == result_of(provider@, data.deep_view()),
{
    if data.choices.len() == 0 {
        return Err(provider_failure(provider, "empty choices"));
    }
    let choice = &data.choices[0];
    assert(choice.deep_view() == data.deep_view().choices[0]);
    let tool_calls = parse_wire_tool_calls(choice.tool_calls.as_ref());
    let finish_reason = if tool_calls.is_some() {
        Some("tool_calls".to_owned())
    } else {
        match &choice.finish_reason {
            Some(reason) => map_finish(Some(reason.as_str())),
            None => map_finish(None),
        }
    };
    let content = match &choice.content {
        Some(t) => t.clone(),
        None => "".to_owned(),
    };
    let usage = match data.usage {
        Some(usage) => usage,
        None => OAIUsage { prompt_tokens: None, completion_tokens: None, cached_tokens: None },
    };
    Ok(
        AdapterResult {
            text: content,
            finish_reason,
            input_tokens: usage.prompt_tokens,
            output_tokens: usage.completion_tokens,
            cached_input_tokens: usage.cached_tokens,
            reasoning_tokens: None,
            tool_calls,
            reasoning: None,
        },
    )
}

// ---- Streams ----

/// The text that a value of a stream adds: that of its first choice.
pub open spec fn value_text(value: Json) -> Seq<Seq<char>> {
    match text(member(member(item(member(value, "choices"@), 0), "delta"@), "content"@)) {
        Some(t) => if_not_empty(t),
        None => Seq::empty(),
    }
}

/// The text that a line of a stream adds: that of its data, if it is JSON.
pub open spec fn line_text(line: Seq<char>) -> Seq<Seq<char>> {
    match without_prefix(trimmed(line), "data: "@) {
        Some(data) => match json_of_text(data) {
            Ok(value) => value_text(value),
            Err(_) => Seq::empty(),
        },
        None => Seq::empty(),
    }
}

/// The texts that lines of a stream add, from `from` on and up to the mark of the end.
pub open spec fn lines_text(lines: Seq<Seq<char>>, from: int) -> Seq<Seq<char>>
    decreases lines.len() - from,
{
    if from < 0 || from >= lines.len() || trimmed(lines[from]) == "data: [DONE]"@ {
        Seq::empty()
    } else {
        line_text(lines[from]) + lines_text(lines, from + 1)
    }
}

/// Adds the text of a value of a stream.
pub fn push_value_text(texts: &mut Vec<String>, value: &Value)
    ensures
        final(texts).deep_view() == old(texts).deep_view() + value_text(json_view(*value)),
{
    let ghost before = texts.deep_view();
    let choice = json::nth(json::at(value, "choices"), 0);
    if let Some(t) = json::text_at(json::at(choice, "delta"), "content") {
        text::push_if_not_empty(texts, t.as_str());
    }
    assert(texts.deep_view() =~= before + value_text(json_view(*value)));
}

/// Reads a chunk of a stream as text. What is no UTF-8 is replaced.
pub fn read_chunk(bytes: &[u8]) -> (r: Vec<String>)
    ensures
        r.deep_view() == lines_text(line_texts(utf8_lossy(bytes@)), 0),
{
    let chunk = text::lossy_text(bytes);
    let lines = text::lines(chunk.as_str());
    let ghost all = lines.deep_view();
    let mut texts: Vec<String> = lists::no_items();
    let mut i: usize = 0;
    assert(texts.deep_view() + lines_text(all, 0) =~= lines_text(all, 0));
    while i < lines.len()
        invariant
            i <= lines@.len(),
            all == lines.deep_view(),
            all == line_texts(utf8_lossy(bytes@)),
            texts.deep_view() + lines_text(all, i as int) == lines_text(all, 0),
        decreases lines@.len() - i,
    {
        assert(all[i as int] == lines@[i as int]@);
        let ghost before = texts.deep_view();
        let line = text::trim(lines[i].as_str());
        if text::same(line.as_str(), "data: [DONE]") {
            assert(texts.deep_view() + lines_text(all, i as int) =~= texts.deep_view());
            return texts;
        }
        if let Some(data) = text::strip_prefix(line.as_str(), "data: ") {
            if let Ok(value) = json::parse(data.as_str()) {
                push_value_text(&mut texts, &value);
            }
        }
        assert(texts.deep_view() =~= before + line_text(all[i as int]));
        assert(texts.deep_view() + lines_text(all, i + 1) =~= before + lines_text(all, i as int));
        i += 1;
    }
    assert(texts.deep_view() + lines_text(all, i as int) =~= texts.deep_view());
    texts
}

} // verus!
