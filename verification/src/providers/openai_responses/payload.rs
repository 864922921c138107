//! Writes a request to the Responses API.

use super::response::REASONING_FORMAT;
use crate::context_builder::{Message, MessageView};
use crate::json;
use crate::json::{
    compact_text, json_view, list_view, no_members, object_view, text_or_null, Json,
};
use crate::providers::adapter::{options_or_none, AdapterCallOptions, AdapterCallOptionsView};
use crate::schema::config::{PriestConfig, PriestConfigView};
use crate::schema::reasoning::{
    OpaqueReasoningStateView, ReasoningConfig, ReasoningInfo, ReasoningInfoView,
    ReasoningSummaryMode,
};
use crate::schema::request::{OutputSpec, OutputSpecView};
use crate::schema::tools::{
    write_tool_arguments, ProviderToolDefinition, ToolCall, ToolCallView, ToolChoice,
    ToolChoiceView, ToolDefinition, ToolDefinitionView,
};
use crate::text;
use serde_json::Value;
use vstd::prelude::*;

verus! {

// ---- Input ----

/// A tool's result as input.
pub open spec fn result_input(message: MessageView) -> Json {
    Json::Object(
        map![
            "type"@ => Json::Text("function_call_output"@),
            "call_id"@ => text_or_null(message.tool_call_id),
            "output"@ => Json::Text(message.content),
        ],
    )
}

fn write_result(message: &Message) -> (r: Value)
    ensures
        json_view(r) == result_input(message.deep_view()),
{
    let mut item: serde_json::Map<String, Value> = serde_json::Map::new();
    json::put(&mut item, "type", json::from_text("function_call_output"));
    json::put(&mut item, "call_id", json::from_optional_text(&message.tool_call_id));
    json::put(&mut item, "output", json::from_text(message.content.as_str()));
    json::from_object(item)
}

/// A tool call as input.
pub open spec fn call_input(call: ToolCallView) -> Json {
    Json::Object(
        map![
            "type"@ => Json::Text("function_call"@),
            "call_id"@ => Json::Text(call.id),
            "name"@ => Json::Text(call.name),
            "arguments"@ => Json::Text(compact_text(Json::Object(call.arguments))),
        ],
    )
}

fn write_call(call: &ToolCall) -> (r: Value)
    ensures
        json_view(r) == call_input(call.deep_view()),
{
    let mut item: serde_json::Map<String, Value> = serde_json::Map::new();
    json::put(&mut item, "type", json::from_text("function_call"));
    json::put(&mut item, "call_id", json::from_text(call.id.as_str()));
    json::put(&mut item, "name", json::from_text(call.name.as_str()));
    let arguments = write_tool_arguments(&call.arguments);
    json::put(&mut item, "arguments", json::from_text(arguments.as_str()));
    json::from_object(item)
}

/// What text is called in the API: what the assistant said is output, anything else input.
pub open spec fn text_kind(role: Seq<char>) -> Seq<char> {
    if role == "assistant"@ {
        "output_text"@
    } else {
        "input_text"@
    }
}

/// A message of text as input.
pub open spec fn text_input(message: MessageView) -> Json {
    Json::Object(
        map![
            "role"@ => Json::Text(message.role),
            "content"@ => Json::List(seq![
                Json::Object(map![
                    "type"@ => Json::Text(text_kind(message.role)),
                    "text"@ => Json::Text(message.content),
                ]),
            ]),
        ],
    )
}

fn write_text(message: &Message) -> (r: Value)
    ensures
        json_view(r) == text_input(message.deep_view()),
{
    let kind = if text::same(message.role.as_str(), "assistant") {
        "output_text"
    } else {
        "input_text"
    };
    let mut part: serde_json::Map<String, Value> = serde_json::Map::new();
    json::put(&mut part, "type", json::from_text(kind));
    json::put(&mut part, "text", json::from_text(message.content.as_str()));
    let part_value = json::from_object(part);
    let mut parts: Vec<Value> = Vec::new();
    parts.push(part_value);
    assert(list_view(parts@) =~= seq![json_view(part_value)]);
    let mut item: serde_json::Map<String, Value> = serde_json::Map::new();
    json::put(&mut item, "role", json::from_text(message.role.as_str()));
    json::put(&mut item, "content", json::from_list(parts));
    json::from_object(item)
}

/// The states among `states` that this API gave out, as input.
pub open spec fn known_states(states: Seq<OpaqueReasoningStateView>) -> Seq<Json>
    decreases states.len(),
{
    if states.len() == 0 {
        Seq::empty()
    } else {
        let before = known_states(states.drop_last());
        if states.last().format == REASONING_FORMAT@ {
            before.push(states.last().value)
        } else {
            before
        }
    }
}

/// The reasoning state that a message carries.
pub open spec fn states_of(reasoning: Option<ReasoningInfoView>) -> Seq<OpaqueReasoningStateView> {
    match reasoning {
        Some(info) => match info.continuation {
            Some(states) => states,
            None => Seq::empty(),
        },
        None => Seq::empty(),
    }
}

fn write_states(input: &mut Vec<Value>, reasoning: &Option<ReasoningInfo>)
    ensures
        list_view(final(input)@) == list_view(old(input)@) + known_states(
            states_of(reasoning.deep_view()),
        ),
{
    let ghost before = list_view(input@);
    if let Some(info) = reasoning {
        if let Some(states) = &info.continuation {
            let ghost all = states.deep_view();
            let mut i: usize = 0;
            assert(before + known_states(all.take(0)) =~= before);
            while i < states.len()
                invariant
                    i <= states@.len(),
                    all == states.deep_view(),
                    list_view(input@) == before + known_states(all.take(i as int)),
                decreases states@.len() - i,
            {
                proof {
                    assert(all.take(i + 1).drop_last() == all.take(i as int));
                    assert(all.take(i + 1).last() == states@[i as int].deep_view());
                }
                let state = &states[i];
                let ghost so_far = list_view(input@);
                if text::same(state.format.as_str(), REASONING_FORMAT) {
                    json::push_value(input, state.value.clone());
                }
                i += 1;
                assert(list_view(input@) =~= before + known_states(all.take(i as int)));
            }
            assert(all.take(i as int) == all);
            return;
        }
    }
    assert(before + known_states(Seq::empty()) =~= before);
}

/// Tool calls as input.
pub open spec fn calls_input(calls: Seq<ToolCallView>) -> Seq<Json> {
    Seq::new(calls.len(), |i: int| call_input(calls[i]))
}

fn write_calls(input: &mut Vec<Value>, calls: &Vec<ToolCall>)
    ensures
        list_view(final(input)@) == list_view(old(input)@) + calls_input(calls.deep_view()),
{
    let ghost before = list_view(input@);
    let ghost all = calls_input(calls.deep_view());
    let mut i: usize = 0;
    assert(before + all.take(0) =~= before);
    while i < calls.len()
        invariant
            i <= calls@.len(),
            all == calls_input(calls.deep_view()),
            list_view(input@) == before + all.take(i as int),
        decreases calls@.len() - i,
    {
        assert(all[i as int] == call_input(calls@[i as int].deep_view()));
        json::push_value(input, write_call(&calls[i]));
        i += 1;
        assert(list_view(input@) =~= before + all.take(i as int));
    }
    assert(all.take(i as int) =~= all);
}

/// What a message becomes as input: a tool's result; the tool calls of the assistant behind the
/// reasoning state that led to them; or text.
pub open spec fn message_input(message: MessageView) -> Seq<Json> {
    if message.role == "tool"@ {
        seq![result_input(message)]
    } else if message.role == "assistant"@ && message.tool_calls is Some
        && message.tool_calls->0.len() > 0 {
        known_states(states_of(message.reasoning)) + calls_input(message.tool_calls->0)
    } else {
        seq![text_input(message)]
    }
}

fn write_message(input: &mut Vec<Value>, message: &Message)
    ensures
        list_view(final(input)@) == list_view(old(input)@) + message_input(message.deep_view()),
{
    let ghost before = list_view(input@);
    if text::same(message.role.as_str(), "tool") {
        json::push_value(input, write_result(message));
        assert(list_view(input@) =~= before + message_input(message.deep_view()));
        return;
    }
    if text::same(message.role.as_str(), "assistant") {
        if let Some(calls) = &message.tool_calls {
            if calls.len() > 0 {
                write_states(input, &message.reasoning);
                write_calls(input, calls);
                assert(list_view(input@) =~= before + message_input(message.deep_view()));
                return;
            }
        }
    }
    json::push_value(input, write_text(message));
    assert(list_view(input@) =~= before + message_input(message.deep_view()));
}

/// Messages as input.
pub open spec fn input_of(messages: Seq<MessageView>) -> Seq<Json>
    decreases messages.len(),
{
    if messages.len() == 0 {
        Seq::empty()
    } else {
        input_of(messages.drop_last()) + message_input(messages.last())
    }
}

/// Messages as input.
pub fn responses_input(messages: &[Message]) -> (r: Vec<Value>)
    ensures
        list_view(r@) == input_of(messages.deep_view()),
{
    let mut input: Vec<Value> = Vec::new();
    let ghost all = messages.deep_view();
    let mut i: usize = 0;
    assert(list_view(input@) =~= input_of(all.take(0)));
    while i < messages.len()
        invariant
            i <= messages@.len(),
            all == messages.deep_view(),
            list_view(input@) == input_of(all.take(i as int)),
        decreases messages@.len() - i,
    {
        proof {
            assert(all.take(i + 1).drop_last() == all.take(i as int));
            assert(all.take(i + 1).last() == messages@[i as int].deep_view());
        }
        write_message(&mut input, &messages[i]);
        i += 1;
    }
    assert(all.take(i as int) == all);
    input
}

// ---- Settings of a request ----

/// What is asked of the model's reasoning.
pub open spec fn reasoning_members(requested: ReasoningConfig) -> Map<Seq<char>, Json> {
    let effort = match requested.effort {
        Some(effort) => no_members().insert("effort"@, Json::Text(effort.name())),
        None => if requested.enabled == Some(false) {
            no_members().insert("effort"@, Json::Text("none"@))
        } else {
            no_members()
        },
    };
    if requested.summary == Some(ReasoningSummaryMode::Auto) {
        effort.insert("summary"@, Json::Text("auto"@))
    } else {
        effort
    }
}

/// What is asked of the model's reasoning, if anything is.
pub open spec fn reasoning_request(requested: Option<ReasoningConfig>) -> Option<Json> {
    match requested {
        Some(r) if reasoning_members(r) != no_members() => Some(
            Json::Object(reasoning_members(r)),
        ),
        _ => None,
    }
}

/// What is asked of the model's reasoning, if anything is.
pub fn openai_reasoning(config: &PriestConfig) -> (r: Option<Value>)
    ensures
        json::optional_view(r) == reasoning_request(config.reasoning),
{
    let requested = match config.reasoning {
        Some(requested) => requested,
        None => {
            return None;
        },
    };
    let mut reasoning: serde_json::Map<String, Value> = serde_json::Map::new();
    if let Some(effort) = requested.effort {
        json::put(&mut reasoning, "effort", json::from_text(effort.as_str()));
    } else if let Some(false) = requested.enabled {
        json::put(&mut reasoning, "effort", json::from_text("none"));
    }
    if let Some(ReasoningSummaryMode::Auto) = requested.summary {
        json::put(&mut reasoning, "summary", json::from_text("auto"));
    }
    if reasoning.is_empty() {
        None
    } else {
        Some(json::from_object(reasoning))
    }
}

/// The output format that is asked for, if any is. A schema goes before a format.
pub open spec fn format_request(output: OutputSpecView) -> Option<Json> {
    match output.json_schema {
        Some(schema) => Some(
            Json::Object(
                map![
                    "type"@ => Json::Text("json_schema"@),
                    "name"@ => Json::Text(output.json_schema_name),
                    "schema"@ => schema,
                    "strict"@ => Json::Bool(output.json_schema_strict),
                ],
            ),
        ),
        None => if output.provider_format == Some("json"@) {
            Some(Json::Object(map!["type"@ => Json::Text("json_object"@)]))
        } else {
            None
        },
    }
}

fn write_format(output: &OutputSpec) -> (r: Option<Value>)
    ensures
        json::optional_view(r) == format_request(output.deep_view()),
{
    let mut format: serde_json::Map<String, Value> = serde_json::Map::new();
    if let Some(schema) = &output.json_schema {
        json::put(&mut format, "type", json::from_text("json_schema"));
        json::put(&mut format, "name", json::from_text(output.json_schema_name.as_str()));
        json::put(&mut format, "schema", schema.clone());
        json::put(&mut format, "strict", json::from_bool(output.json_schema_strict));
        return Some(json::from_object(format));
    }
    if let Some(provider_format) = &output.provider_format {
        if text::same(provider_format.as_str(), "json") {
            json::put(&mut format, "type", json::from_text("json_object"));
            return Some(json::from_object(format));
        }
    }
    None
}

/// A tool that the provider executes.
pub open spec fn provider_tool(tool: ProviderToolDefinition) -> Json {
    Json::Object(map!["type"@ => Json::Text(tool.wire_name())])
}

/// A tool that the caller executes.
pub open spec fn function_tool(tool: ToolDefinitionView) -> Json {
    Json::Object(
        map![
            "type"@ => Json::Text("function"@),
            "name"@ => Json::Text(tool.name),
            "description"@ => Json::Text(tool.description),
            "parameters"@ => match tool.parameters {
                Some(parameters) => parameters,
                None => Json::Object(no_members()),
            },
        ],
    )
}

fn write_function_tool(tool: &ToolDefinition) -> (r: Value)
    ensures
        json_view(r) == function_tool(tool.deep_view()),
{
    let mut item: serde_json::Map<String, Value> = serde_json::Map::new();
    json::put(&mut item, "type", json::from_text("function"));
    json::put(&mut item, "name", json::from_text(tool.name.as_str()));
    json::put(&mut item, "description", json::from_text(tool.description.as_str()));
    let parameters = match &tool.parameters {
        Some(parameters) => parameters.clone(),
        None => json::from_object(serde_json::Map::new()),
    };
    json::put(&mut item, "parameters", parameters);
    json::from_object(item)
}

/// All tools: those of the provider before those of the caller.
pub open spec fn tools_request(options: AdapterCallOptionsView) -> Seq<Json> {
    Seq::new(options.provider_tools.len(), |i: int| provider_tool(options.provider_tools[i]))
        + Seq::new(options.tools.len(), |i: int| function_tool(options.tools[i]))
}

fn write_tools(options: &AdapterCallOptions) -> (r: Vec<Value>)
    ensures
        list_view(r@) == tools_request(options.deep_view()),
{
    let ghost view = options.deep_view();
    let ghost all = tools_request(view);
    let mut r: Vec<Value> = Vec::new();
    let mut i: usize = 0;
    assert(list_view(r@) =~= all.take(0));
    while i < options.provider_tools.len()
        invariant
            i <= options.provider_tools@.len(),
            view == options.deep_view(),
            all == tools_request(view),
            list_view(r@) == all.take(i as int),
        decreases options.provider_tools@.len() - i,
    {
        let mut item: serde_json::Map<String, Value> = serde_json::Map::new();
        json::put(&mut item, "type", json::from_text(options.provider_tools[i].name()));
        let value = json::from_object(item);
        assert(json_view(value) == provider_tool(view.provider_tools[i as int]));
        json::push_value(&mut r, value);
        i += 1;
        assert(list_view(r@) =~= all.take(i as int));
    }
    let ghost hosted = view.provider_tools.len();
    let mut k: usize = 0;
    while k < options.tools.len()
        invariant
            k <= options.tools@.len(),
            view == options.deep_view(),
            hosted == view.provider_tools.len(),
            all == tools_request(view),
            list_view(r@) == all.take(hosted + k),
        decreases options.tools@.len() - k,
    {
        assert(all[hosted + k] == function_tool(options.tools@[k as int].deep_view()));
        json::push_value(&mut r, write_function_tool(&options.tools[k]));
        k += 1;
        assert(list_view(r@) =~= all.take(hosted + k));
    }
    assert(all.take(hosted + k) =~= all);
    r
}

/// How the model is to choose among the caller's tools.
pub open spec fn choice_request(choice: ToolChoiceView) -> Json {
    match choice {
        ToolChoiceView::Auto => Json::Text("auto"@),
        ToolChoiceView::Never => Json::Text("none"@),
        ToolChoiceView::Required => Json::Text("required"@),
        ToolChoiceView::Tool { name } => Json::Object(
            map!["type"@ => Json::Text("function"@), "name"@ => Json::Text(name)],
        ),
    }
}

fn write_choice(choice: &ToolChoice) -> (r: Value)
    ensures
        json_view(r) == choice_request(choice.deep_view()),
{
    match choice {
        ToolChoice::Auto => json::from_text("auto"),
        ToolChoice::Never => json::from_text("none"),
        ToolChoice::Required => json::from_text("required"),
        ToolChoice::Tool { name } => {
            let mut item: serde_json::Map<String, Value> = serde_json::Map::new();
            json::put(&mut item, "type", json::from_text("function"));
            json::put(&mut item, "name", json::from_text(name.as_str()));
            json::from_object(item)
        },
    }
}

/// What a request says before the caller's own options: nothing is stored, and the limits, formats
/// and tools that were asked for.
pub open spec fn base_members(
    config: PriestConfigView,
    output: OutputSpecView,
    options: AdapterCallOptionsView,
) -> Map<Seq<char>, Json> {
    let stored = no_members().insert("store"@, Json::Bool(false));
    let limited = json::with_member(
        stored,
        "max_output_tokens"@,
        match config.max_output_tokens {
            Some(n) => Some(Json::Unsigned(n as u64)),
            None => None,
        },
    );
    let reasoned = json::with_member(limited, "reasoning"@, reasoning_request(config.reasoning));
    let formatted = json::with_member(
        reasoned,
        "text"@,
        match format_request(output) {
            Some(format) => Some(Json::Object(map!["format"@ => format])),
            None => None,
        },
    );
    let tooled = if options.provider_tools.len() > 0 || options.tools.len() > 0 {
        formatted.insert("tools"@, Json::List(tools_request(options)))
    } else {
        formatted
    };
    json::with_member(
        tooled,
        "tool_choice"@,
        match options.tool_choice {
            Some(choice) if options.tools.len() > 0 => Some(choice_request(choice)),
            _ => None,
        },
    )
}

/// A request: the caller's options over the settings, and over these what the adapter alone
/// decides: model, input and whether the answer is streamed.
pub open spec fn payload_of(
    messages: Seq<MessageView>,
    config: PriestConfigView,
    output: OutputSpecView,
    options: Option<AdapterCallOptionsView>,
    stream: bool,
) -> Map<Seq<char>, Json> {
    base_members(config, output, options_or_none(options)).union_prefer_right(
        config.provider_options,
    ).insert("model"@, Json::Text(config.model)).insert(
        "input"@,
        Json::List(input_of(messages)),
    ).insert("stream"@, Json::Bool(stream))
}

/// Writes a request.
pub fn build_payload(
    messages: &[Message],
    config: &PriestConfig,
    output_spec: &OutputSpec,
    options: Option<&AdapterCallOptions>,
    stream: bool,
) -> (r: Value)
    ensures
        json_view(r) == Json::Object(
            payload_of(
                messages.deep_view(),
                config.deep_view(),
                output_spec.deep_view(),
                options.deep_view(),
                stream,
            ),
        ),
{
    let mut payload: serde_json::Map<String, Value> = serde_json::Map::new();
    json::put(&mut payload, "store", json::from_bool(false));
    if let Some(n) = config.max_output_tokens {
        json::put(&mut payload, "max_output_tokens", json::from_unsigned(n as u64));
    }
    if let Some(reasoning) = openai_reasoning(config) {
        json::put(&mut payload, "reasoning", reasoning);
    }
    if let Some(format) = write_format(output_spec) {
        let mut text_member: serde_json::Map<String, Value> = serde_json::Map::new();
        json::put(&mut text_member, "format", format);
        json::put(&mut payload, "text", json::from_object(text_member));
    }
    if let Some(given) = options {
        if given.provider_tools.len() > 0 || given.tools.len() > 0 {
            json::put(&mut payload, "tools", json::from_list(write_tools(given)));
        }
        if given.tools.len() > 0 {
            if let Some(choice) = &given.tool_choice {
                json::put(&mut payload, "tool_choice", write_choice(choice));
            }
        }
    }
    assert(object_view(payload) == base_members(
        config.deep_view(),
        output_spec.deep_view(),
        options_or_none(options.deep_view()),
    ));
    let mut whole = json::overlay(payload, &config.provider_options);
    json::put(&mut whole, "model", json::from_text(config.model.as_str()));
    json::put(&mut whole, "input", json::from_list(responses_input(messages)));
    json::put(&mut whole, "stream", json::from_bool(stream));
    json::from_object(whole)
}

/// The caller's options reach the provider as they are, but for those that only the adapter
/// decides: model, input and whether the answer is streamed are what they are whatever the options
/// say.
pub proof fn law_options_and_invariants(
    messages: Seq<MessageView>,
    config: PriestConfigView,
    output: OutputSpecView,
    options: Option<AdapterCallOptionsView>,
    stream: bool,
)
    ensures
        ({
            let payload = payload_of(messages, config, output, options, stream);
            &&& payload.contains_key("model"@) && payload["model"@] == Json::Text(config.model)
            &&& payload.contains_key("input"@) && payload["input"@] == Json::List(
                input_of(messages),
            )
            &&& payload.contains_key("stream"@) && payload["stream"@] == Json::Bool(stream)
            &&& forall|key: Seq<char>| #[trigger]
                config.provider_options.contains_key(key) && key != "model"@ && key != "input"@
                    && key != "stream"@ ==> payload.contains_key(key) && payload[key]
                    == config.provider_options[key]
        }),
{
    reveal_strlit("model");
    reveal_strlit("input");
    reveal_strlit("stream");
    assert("model"@[0] != "input"@[0]);
    assert("model"@.len() != "stream"@.len());
    assert("input"@.len() != "stream"@.len());
}

/// A schema goes before a format: with one, the format that is asked for makes no difference.
pub proof fn law_schema_goes_first(
    messages: Seq<MessageView>,
    config: PriestConfigView,
    output: OutputSpecView,
    options: Option<AdapterCallOptionsView>,
    stream: bool,
    format: Option<Seq<char>>,
)
    requires
        output.json_schema is Some,
    ensures
        payload_of(messages, config, output, options, stream) == payload_of(
            messages,
            config,
            OutputSpecView { provider_format: format, ..output },
            options,
            stream,
        ),
{
}

} // verus!
