//! Writes a request to the Messages API.

use super::content::REASONING_FORMAT;
use crate::context_builder::{Message, MessageView};
use crate::json;
use crate::json::{
    json_view, list_view, member, no_members, object_view, pretty_text, text_or_null, with_member,
    Json,
};
use crate::lists;
use crate::providers::adapter::{
    options_or_none, AdapterCallOptions, AdapterCallOptionsView,
};
use crate::schema::config::{PriestConfig, PriestConfigView};
use crate::schema::reasoning::{
    OpaqueReasoningStateView, ReasoningConfig, ReasoningEffort, ReasoningInfo, ReasoningInfoView,
    ReasoningSummaryMode,
};
use crate::schema::request::{OutputSpec, OutputSpecView};
use crate::schema::tools::{
    ToolCall, ToolCallView, ToolChoice, ToolChoiceView, ToolDefinition, ToolDefinitionView,
};
use crate::text;
use crate::text::joined;
use serde_json::Value;
use vstd::prelude::*;

verus! {

// ---- Turns ----

/// A tool's result as a content block.
pub open spec fn result_block(message: MessageView) -> Json {
    Json::Object(
        map![
            "type"@ => Json::Text("tool_result"@),
            "tool_use_id"@ => text_or_null(message.tool_call_id),
            "content"@ => Json::Text(message.content),
        ],
    )
}

fn write_result(message: &Message) -> (r: Value)
    ensures
        json_view(r) == result_block(message.deep_view()),
{
    let mut block: serde_json::Map<String, Value> = serde_json::Map::new();
    json::put(&mut block, "type", json::from_text("tool_result"));
    json::put(&mut block, "tool_use_id", json::from_optional_text(&message.tool_call_id));
    json::put(&mut block, "content", json::from_text(message.content.as_str()));
    json::from_object(block)
}

/// A turn: who speaks, and what.
pub open spec fn turn(role: Seq<char>, content: Json) -> Json {
    Json::Object(map!["role"@ => Json::Text(role), "content"@ => content])
}

fn write_turn(role: &str, content: Value) -> (r: Value)
    ensures
        json_view(r) == turn(role@, json_view(content)),
{
    let mut object: serde_json::Map<String, Value> = serde_json::Map::new();
    json::put(&mut object, "role", json::from_text(role));
    json::put(&mut object, "content", content);
    json::from_object(object)
}

/// The states among `states` that this API gave out, as content blocks.
pub open spec fn known_states(states: Seq<OpaqueReasoningStateView>) -> Seq<Json>
    decreases states.len(),
{
    if states.len() == 0 {
        Seq::empty()
    } else {
        let before = known_states(states.drop_last());
        if states.last().format == REASONING_FORMAT@ && states.last().value is Object {
            before.push(states.last().value)
        } else {
            before
        }
    }
}

/// The reasoning state that a message carries.
pub open spec fn states_of(reasoning: Option<ReasoningInfoView>) -> Seq<OpaqueReasoningStateView> {
    match reasoning {
        Some(info) => match info.continuation {
            Some(states) => states,
            None => Seq::empty(),
        },
        None => Seq::empty(),
    }
}

fn write_states(reasoning: &Option<ReasoningInfo>) -> (r: Vec<Value>)
    ensures
        list_view(r@) == known_states(states_of(reasoning.deep_view())),
{
    let mut r: Vec<Value> = Vec::new();
    assert(list_view(r@) =~= known_states(Seq::empty()));
    if let Some(info) = reasoning {
        if let Some(states) = &info.continuation {
            let ghost all = states.deep_view();
            let mut i: usize = 0;
            assert(list_view(r@) =~= known_states(all.take(0)));
            while i < states.len()
                invariant
                    i <= states@.len(),
                    all == states.deep_view(),
                    list_view(r@) == known_states(all.take(i as int)),
                decreases states@.len() - i,
            {
                proof {
                    assert(all.take(i + 1).drop_last() == all.take(i as int));
                    assert(all.take(i + 1).last() == states@[i as int].deep_view());
                }
                let state = &states[i];
                if text::same(state.format.as_str(), REASONING_FORMAT)
                    && state.value.as_object().is_some() {
                    json::push_value(&mut r, state.value.clone());
                }
                i += 1;
            }
            assert(all.take(i as int) == all);
        }
    }
    r
}

/// Text as a list of one content block, or of none where it is empty.
pub open spec fn text_blocks(content: Seq<char>) -> Seq<Json> {
    if content.len() == 0 {
        Seq::empty()
    } else {
        seq![
            Json::Object(
                map!["type"@ => Json::Text("text"@), "text"@ => Json::Text(content)],
            ),
        ]
    }
}

/// A tool call as a content block.
pub open spec fn call_block(call: ToolCallView) -> Json {
    Json::Object(
        map![
            "type"@ => Json::Text("tool_use"@),
            "id"@ => Json::Text(call.id),
            "name"@ => Json::Text(call.name),
            "input"@ => Json::Object(call.arguments),
        ],
    )
}

fn write_call(call: &ToolCall) -> (r: Value)
    ensures
        json_view(r) == call_block(call.deep_view()),
{
    let mut block: serde_json::Map<String, Value> = serde_json::Map::new();
    json::put(&mut block, "type", json::from_text("tool_use"));
    json::put(&mut block, "id", json::from_text(call.id.as_str()));
    json::put(&mut block, "name", json::from_text(call.name.as_str()));
    json::put(&mut block, "input", json::from_object(call.arguments.clone()));
    json::from_object(block)
}

/// The content blocks of an assistant's turn with tool calls: the reasoning state that led to them,
/// what was said, and the calls.
pub open spec fn assistant_blocks(
    message: MessageView,
    calls: Seq<ToolCallView>,
) -> Seq<Json> {
    known_states(states_of(message.reasoning)) + text_blocks(message.content) + Seq::new(
        calls.len(),
        |i: int| call_block(calls[i]),
    )
}

fn write_assistant_blocks(message: &Message, calls: &Vec<ToolCall>) -> (r: Vec<Value>)
    ensures
        list_view(r@) == assistant_blocks(message.deep_view(), calls.deep_view()),
{
    let ghost view = message.deep_view();
    let mut r = write_states(&message.reasoning);
    let ghost states = list_view(r@);
    if !message.content.as_str().is_empty() {
        let mut block: serde_json::Map<String, Value> = serde_json::Map::new();
        json::put(&mut block, "type", json::from_text("text"));
        json::put(&mut block, "text", json::from_text(message.content.as_str()));
        json::push_value(&mut r, json::from_object(block));
    }
    assert(list_view(r@) =~= states + text_blocks(view.content));
    let ghost before = list_view(r@);
    let ghost all = Seq::new(calls.deep_view().len(), |i: int| call_block(calls.deep_view()[i]));
    let mut i: usize = 0;
    assert(before + all.take(0) =~= before);
    while i < calls.len()
        invariant
            i <= calls@.len(),
            all == Seq::new(
                calls.deep_view().len(),
                |i: int| call_block(calls.deep_view()[i]),
            ),
            list_view(r@) == before + all.take(i as int),
        decreases calls@.len() - i,
    {
        assert(all[i as int] == call_block(calls@[i as int].deep_view()));
        json::push_value(&mut r, write_call(&calls[i]));
        i += 1;
        assert(list_view(r@) =~= before + all.take(i as int));
    }
    assert(all.take(i as int) =~= all);
    r
}

/// The turns so far, and the tools' results that have not become a turn yet.
pub struct TurnsView {
    pub turns: Seq<Json>,
    pub pending: Seq<Json>,
}

impl TurnsView {
    /// With the pending results, if there are any, made a turn of the user.
    pub open spec fn flushed(self) -> TurnsView {
        if self.pending.len() == 0 {
            self
        } else {
            TurnsView {
                turns: self.turns.push(turn("user"@, Json::List(self.pending))),
                pending: Seq::empty(),
            }
        }
    }

    /// With one more message. System messages make no turn, and results wait for each other.
    pub open spec fn with_message(self, message: MessageView) -> TurnsView {
        if message.role == "system"@ {
            self
        } else if message.role == "tool"@ {
            TurnsView { pending: self.pending.push(result_block(message)), ..self }
        } else {
            let content = match message.tool_calls {
                Some(calls) if message.role == "assistant"@ && calls.len() > 0 => Json::List(
                    assistant_blocks(message, calls),
                ),
                _ => Json::Text(message.content),
            };
            TurnsView {
                turns: self.flushed().turns.push(turn(message.role, content)),
                pending: Seq::empty(),
            }
        }
    }
}

/// What messages lead to, turn by turn.
pub open spec fn turns_so_far(messages: Seq<MessageView>) -> TurnsView
    decreases messages.len(),
{
    if messages.len() == 0 {
        TurnsView { turns: Seq::empty(), pending: Seq::empty() }
    } else {
        turns_so_far(messages.drop_last()).with_message(messages.last())
    }
}

/// Messages as turns: results of tools that follow each other are one turn of the user.
pub open spec fn turns_of(messages: Seq<MessageView>) -> Seq<Json> {
    turns_so_far(messages).flushed().turns
}

struct Turns {
    turns: Vec<Value>,
    pending: Vec<Value>,
}

impl DeepView for Turns {
    type V = TurnsView;

    closed spec fn deep_view(&self) -> TurnsView {
        TurnsView { turns: list_view(self.turns@), pending: list_view(self.pending@) }
    }
}

impl Turns {
    fn flush(&mut self)
        ensures
            final(self).deep_view() == old(self).deep_view().flushed(),
    {
        if self.pending.len() > 0 {
            let mut pending: Vec<Value> = Vec::new();
            std::mem::swap(&mut pending, &mut self.pending);
            json::push_value(&mut self.turns, write_turn("user", json::from_list(pending)));
            assert(list_view(self.pending@) =~= Seq::empty());
        }
    }

    fn take_message(&mut self, message: &Message)
        ensures
            final(self).deep_view() == old(self).deep_view().with_message(message.deep_view()),
    {
        if text::same(message.role.as_str(), "system") {
            return;
        }
        if text::same(message.role.as_str(), "tool") {
            json::push_value(&mut self.pending, write_result(message));
            return;
        }
        self.flush();
        assert(self.deep_view().pending =~= Seq::empty());
        let mut content = json::from_text(message.content.as_str());
        if text::same(message.role.as_str(), "assistant") {
            if let Some(calls) = &message.tool_calls {
                if calls.len() > 0 {
                    content = json::from_list(write_assistant_blocks(message, calls));
                }
            }
        }
        json::push_value(&mut self.turns, write_turn(message.role.as_str(), content));
    }
}

/// Messages as turns. Tool results merge into a user turn of result blocks, since turns must
/// alternate; the assistant's tool calls become content blocks.
pub fn build_wire_turns(messages: &[Message]) -> (r: Vec<Value>)
    ensures
        list_view(r@) == turns_of(messages.deep_view()),
{
    let mut state = Turns { turns: Vec::new(), pending: Vec::new() };
    let ghost all = messages.deep_view();
    let mut i: usize = 0;
    assert(state.deep_view().turns =~= Seq::empty());
    assert(state.deep_view().pending =~= Seq::empty());
    while i < messages.len()
        invariant
            i <= messages@.len(),
            all == messages.deep_view(),
            state.deep_view() == turns_so_far(all.take(i as int)),
        decreases messages@.len() - i,
    {
        proof {
            assert(all.take(i + 1).drop_last() == all.take(i as int));
            assert(all.take(i + 1).last() == messages@[i as int].deep_view());
        }
        state.take_message(&messages[i]);
        i += 1;
    }
    assert(all.take(i as int) == all);
    state.flush();
    state.turns
}

/// Whether a turn is one of tools' results.
pub open spec fn is_result_turn(t: Json) -> bool {
    member(t, "role"@) == Json::Text("user"@) && member(t, "content"@) is List
}

proof fn lemma_turns_so_far(messages: Seq<MessageView>)
    ensures
        ({
            let turns = turns_so_far(messages).turns;
            &&& forall|i: int|
                0 <= i < turns.len() - 1 && is_result_turn(#[trigger] turns[i])
                    ==> !is_result_turn(turns[i + 1])
            &&& turns.len() > 0 ==> !is_result_turn(turns.last())
        }),
    decreases messages.len(),
{
    reveal_strlit("role");
    reveal_strlit("content");
    reveal_strlit("user");
    reveal_strlit("assistant");
    assert("role"@.len() != "content"@.len());
    assert("user"@.len() != "assistant"@.len());
    if messages.len() > 0 {
        lemma_turns_so_far(messages.drop_last());
        let before = turns_so_far(messages.drop_last());
        let after = turns_so_far(messages);
        let flushed = before.flushed().turns;
        assert(forall|i: int| 0 <= i < before.turns.len() ==> flushed[i] == before.turns[i]);
        if after.turns.len() > before.turns.len() {
            assert(after.turns.drop_last() =~= flushed);
            assert(forall|i: int| 0 <= i < flushed.len() ==> after.turns[i] == flushed[i]);
        }
    }
}

/// Results of tools that follow each other share one turn: no turn of results comes right after
/// another.
pub proof fn law_result_turns_do_not_follow_each_other(messages: Seq<MessageView>, i: int)
    requires
        0 <= i < turns_of(messages).len() - 1,
    ensures
        !(is_result_turn(turns_of(messages)[i]) && is_result_turn(turns_of(messages)[i + 1])),
{
    lemma_turns_so_far(messages);
    let before = turns_so_far(messages);
    assert(forall|k: int|
        0 <= k < before.turns.len() ==> turns_of(messages)[k] == before.turns[k]);
}

// ---- Tools and reasoning ----

/// A tool that the caller executes.
pub open spec fn tool_json(tool: ToolDefinitionView) -> Json {
    Json::Object(
        map![
            "name"@ => Json::Text(tool.name),
            "description"@ => Json::Text(tool.description),
            "input_schema"@ => match tool.parameters {
                Some(parameters) => parameters,
                None => Json::Object(
                    map![
                        "type"@ => Json::Text("object"@),
                        "properties"@ => Json::Object(no_members()),
                    ],
                ),
            },
        ],
    )
}

fn write_tool(tool: &ToolDefinition) -> (r: Value)
    ensures
        json_view(r) == tool_json(tool.deep_view()),
{
    let schema = match &tool.parameters {
        Some(parameters) => parameters.clone(),
        None => {
            let mut object: serde_json::Map<String, Value> = serde_json::Map::new();
            json::put(&mut object, "type", json::from_text("object"));
            json::put(&mut object, "properties", json::from_object(serde_json::Map::new()));
            json::from_object(object)
        },
    };
    let mut item: serde_json::Map<String, Value> = serde_json::Map::new();
    json::put(&mut item, "name", json::from_text(tool.name.as_str()));
    json::put(&mut item, "description", json::from_text(tool.description.as_str()));
    json::put(&mut item, "input_schema", schema);
    json::from_object(item)
}

/// How the model is to choose among the tools.
pub open spec fn choice_json(choice: ToolChoiceView) -> Json {
    match choice {
        ToolChoiceView::Auto => Json::Object(map!["type"@ => Json::Text("auto"@)]),
        ToolChoiceView::Never => Json::Object(map!["type"@ => Json::Text("none"@)]),
        ToolChoiceView::Required => Json::Object(map!["type"@ => Json::Text("any"@)]),
        ToolChoiceView::Tool { name } => Json::Object(
            map!["type"@ => Json::Text("tool"@), "name"@ => Json::Text(name)],
        ),
    }
}

fn write_choice(choice: &ToolChoice) -> (r: Value)
    ensures
        json_view(r) == choice_json(choice.deep_view()),
{
    let mut object: serde_json::Map<String, Value> = serde_json::Map::new();
    match choice {
        ToolChoice::Auto => json::put(&mut object, "type", json::from_text("auto")),
        ToolChoice::Never => json::put(&mut object, "type", json::from_text("none")),
        ToolChoice::Required => json::put(&mut object, "type", json::from_text("any")),
        ToolChoice::Tool { name } => {
            json::put(&mut object, "type", json::from_text("tool"));
            json::put(&mut object, "name", json::from_text(name.as_str()));
        },
    }
    json::from_object(object)
}

/// A request with its tools, if it has any, and how to choose among them.
pub open spec fn with_tools(
    payload: Map<Seq<char>, Json>,
    options: AdapterCallOptionsView,
) -> Map<Seq<char>, Json> {
    if options.tools.len() == 0 {
        payload
    } else {
        with_member(
            payload.insert(
                "tools"@,
                Json::List(Seq::new(options.tools.len(), |i: int| tool_json(options.tools[i]))),
            ),
            "tool_choice"@,
            match options.tool_choice {
                Some(choice) => Some(choice_json(choice)),
                None => None,
            },
        )
    }
}

fn apply_tools(payload: &mut serde_json::Map<String, Value>, options: Option<&AdapterCallOptions>)
    ensures
        object_view(*final(payload)) == with_tools(
            object_view(*old(payload)),
            options_or_none(options.deep_view()),
        ),
{
    let given = match options {
        Some(given) => given,
        None => {
            return;
        },
    };
    if given.tools.len() == 0 {
        return;
    }
    let ghost all = Seq::new(
        given.tools.deep_view().len(),
        |i: int| tool_json(given.tools.deep_view()[i]),
    );
    let mut tools: Vec<Value> = Vec::new();
    let mut i: usize = 0;
    assert(list_view(tools@) =~= all.take(0));
    while i < given.tools.len()
        invariant
            i <= given.tools@.len(),
            all == Seq::new(
                given.tools.deep_view().len(),
                |i: int| tool_json(given.tools.deep_view()[i]),
            ),
            list_view(tools@) == all.take(i as int),
        decreases given.tools@.len() - i,
    {
        assert(all[i as int] == tool_json(given.tools@[i as int].deep_view()));
        json::push_value(&mut tools, write_tool(&given.tools[i]));
        i += 1;
        assert(list_view(tools@) =~= all.take(i as int));
    }
    assert(all.take(i as int) =~= all);
    json::put(payload, "tools", json::from_list(tools));
    if let Some(choice) = &given.tool_choice {
        json::put(payload, "tool_choice", write_choice(choice));
    }
}

/// What is asked of the model's thinking: nothing, none at all, or as much as it sees fit, with its
/// summary shown or left out.
pub open spec fn thinking_json(reasoning: ReasoningConfig) -> Option<Json> {
    if reasoning.enabled == Some(false) || reasoning.effort == Some(ReasoningEffort::Off) {
        Some(Json::Object(map!["type"@ => Json::Text("disabled"@)]))
    } else if reasoning.enabled == Some(true) || reasoning.effort is Some || reasoning.summary
        is Some {
        let adaptive = no_members().insert("type"@, Json::Text("adaptive"@));
        Some(
            Json::Object(
                match reasoning.summary {
                    Some(ReasoningSummaryMode::Auto) => adaptive.insert(
                        "display"@,
                        Json::Text("summarized"@),
                    ),
                    Some(ReasoningSummaryMode::Off) => adaptive.insert(
                        "display"@,
                        Json::Text("omitted"@),
                    ),
                    None => adaptive,
                },
            ),
        )
    } else {
        None
    }
}

/// How much effort is asked for, if any is.
pub open spec fn effort_json(reasoning: ReasoningConfig) -> Option<Json> {
    match reasoning.effort {
        Some(effort) if effort != ReasoningEffort::Off => Some(
            Json::Object(map!["effort"@ => Json::Text(effort.name())]),
        ),
        _ => None,
    }
}

/// A request with what is asked of the model's reasoning.
pub open spec fn with_reasoning(
    payload: Map<Seq<char>, Json>,
    reasoning: Option<ReasoningConfig>,
) -> Map<Seq<char>, Json> {
    match reasoning {
        Some(r) => with_member(
            with_member(payload, "thinking"@, thinking_json(r)),
            "output_config"@,
            effort_json(r),
        ),
        None => payload,
    }
}

fn apply_reasoning(payload: &mut serde_json::Map<String, Value>, config: &PriestConfig)
    ensures
        object_view(*final(payload)) == with_reasoning(
            object_view(*old(payload)),
            config.reasoning,
        ),
{
    let reasoning = match config.reasoning {
        Some(reasoning) => reasoning,
        None => {
            return;
        },
    };
    let off = match reasoning.effort {
        Some(ReasoningEffort::Off) => true,
        _ => false,
    };
    let disabled = off || match reasoning.enabled {
        Some(false) => true,
        _ => false,
    };
    if disabled {
        let mut thinking: serde_json::Map<String, Value> = serde_json::Map::new();
        json::put(&mut thinking, "type", json::from_text("disabled"));
        json::put(payload, "thinking", json::from_object(thinking));
    } else if reasoning.enabled.is_some() || reasoning.effort.is_some()
        || reasoning.summary.is_some() {
        let mut thinking: serde_json::Map<String, Value> = serde_json::Map::new();
        json::put(&mut thinking, "type", json::from_text("adaptive"));
        match reasoning.summary {
            Some(ReasoningSummaryMode::Auto) => {
                json::put(&mut thinking, "display", json::from_text("summarized"));
            },
            Some(ReasoningSummaryMode::Off) => {
                json::put(&mut thinking, "display", json::from_text("omitted"));
            },
            None => {},
        }
        json::put(payload, "thinking", json::from_object(thinking));
    }
    if let Some(effort) = reasoning.effort {
        if !off {
            let mut output_config: serde_json::Map<String, Value> = serde_json::Map::new();
            json::put(&mut output_config, "effort", json::from_text(effort.as_str()));
            json::put(payload, "output_config", json::from_object(output_config));
        }
    }
}

// ---- The whole request ----

/// What the model is told of the schema that its answer is to keep to.
pub open spec fn schema_instruction(schema: Json) -> Seq<char> {
    "Respond with a valid JSON object that conforms to the following JSON Schema:\n\n<schema>\n"@
        + pretty_text(schema)
        + "\n</schema>\n\nReturn only the JSON object — no explanation, no markdown fences."@
}

fn write_schema_instruction(schema: &Value) -> (r: String)
    ensures
        r@ == schema_instruction(json_view(*schema)),
{
    let schema_text = json::pretty(schema);
    "Respond with a valid JSON object that conforms to the following JSON Schema:\n\n<schema>\n".to_owned().concat(
        schema_text.as_str(),
    ).concat("\n</schema>\n\nReturn only the JSON object — no explanation, no markdown fences.")
}

/// The contents of the system messages.
pub open spec fn system_contents(messages: Seq<MessageView>) -> Seq<Seq<char>>
    decreases messages.len(),
{
    if messages.len() == 0 {
        Seq::empty()
    } else {
        let before = system_contents(messages.drop_last());
        if messages.last().role == "system"@ {
            before.push(messages.last().content)
        } else {
            before
        }
    }
}

/// The system text: that of the system messages and the schema's instruction, if there is anything
/// to say.
pub open spec fn system_of(messages: Seq<MessageView>, output: OutputSpecView) -> Option<
    Seq<char>,
> {
    let contents = system_contents(messages);
    let parts = match output.json_schema {
        Some(schema) => contents.push(schema_instruction(schema)),
        None => contents,
    };
    if parts.len() == 0 {
        None
    } else {
        Some(joined(parts, "\n\n"@))
    }
}

fn write_system(messages: &[Message], output: &OutputSpec) -> (r: Option<String>)
    ensures
        r.deep_view() == system_of(messages.deep_view(), output.deep_view()),
{
    let mut parts: Vec<String> = lists::no_items();
    let ghost all = messages.deep_view();
    let mut i: usize = 0;
    while i < messages.len()
        invariant
            i <= messages@.len(),
            all == messages.deep_view(),
            parts.deep_view() == system_contents(all.take(i as int)),
        decreases messages@.len() - i,
    {
        proof {
            assert(all.take(i + 1).drop_last() == all.take(i as int));
            assert(all.take(i + 1).last() == messages@[i as int].deep_view());
        }
        let message = &messages[i];
        if text::same(message.role.as_str(), "system") {
            text::push_text(&mut parts, message.content.clone());
        }
        i += 1;
    }
    assert(all.take(i as int) == all);
    if let Some(schema) = &output.json_schema {
        text::push_text(&mut parts, write_schema_instruction(schema));
    }
    if parts.len() == 0 {
        None
    } else {
        Some(text::join(&parts, "\n\n"))
    }
}

/// The most tokens that an answer may have where the request does not say.
pub const DEFAULT_MAX_TOKENS: u32 = 8096;

/// A request: the caller's options over everything else.
pub open spec fn payload_of(
    messages: Seq<MessageView>,
    config: PriestConfigView,
    output: OutputSpecView,
    options: Option<AdapterCallOptionsView>,
    stream: bool,
) -> Map<Seq<char>, Json> {
    let plain = no_members().insert("model"@, Json::Text(config.model)).insert(
        "messages"@,
        Json::List(turns_of(messages)),
    ).insert(
        "max_tokens"@,
        Json::Unsigned(
            match config.max_output_tokens {
                Some(n) => n as u64,
                None => DEFAULT_MAX_TOKENS as u64,
            },
        ),
    ).insert("stream"@, Json::Bool(stream));
    let tooled = with_tools(with_reasoning(plain, config.reasoning), options_or_none(options));
    let told = with_member(
        tooled,
        "system"@,
        match system_of(messages, output) {
            Some(system) => Some(Json::Text(system)),
            None => None,
        },
    );
    told.union_prefer_right(config.provider_options)
}

/// Writes a request, and gives the system text that stands in it.
pub fn build_payload(
    messages: &[Message],
    config: &PriestConfig,
    output_spec: &OutputSpec,
    options: Option<&AdapterCallOptions>,
    stream: bool,
) -> (r: (Value, Option<String>))
    ensures
        json_view(r.0) == Json::Object(
            payload_of(
                messages.deep_view(),
                config.deep_view(),
                output_spec.deep_view(),
                options.deep_view(),
                stream,
            ),
        ),
        r.1.deep_view() == system_of(messages.deep_view(), output_spec.deep_view()),
{
    let system = write_system(messages, output_spec);
    let max_tokens = match config.max_output_tokens {
        Some(n) => n,
        None => DEFAULT_MAX_TOKENS,
    };
    let mut payload: serde_json::Map<String, Value> = serde_json::Map::new();
    json::put(&mut payload, "model", json::from_text(config.model.as_str()));
    json::put(&mut payload, "messages", json::from_list(build_wire_turns(messages)));
    json::put(&mut payload, "max_tokens", json::from_unsigned(max_tokens as u64));
    json::put(&mut payload, "stream", json::from_bool(stream));
    apply_reasoning(&mut payload, config);
    apply_tools(&mut payload, options);
    if let Some(text) = &system {
        json::put(&mut payload, "system", json::from_text(text.as_str()));
    }
    (json::from_object(json::overlay(payload, &config.provider_options)), system)
}

/// The caller's options reach the provider as they are, whatever else the request says.
pub proof fn law_options_win(
    messages: Seq<MessageView>,
    config: PriestConfigView,
    output: OutputSpecView,
    options: Option<AdapterCallOptionsView>,
    stream: bool,
    key: Seq<char>,
)
    requires
        config.provider_options.contains_key(key),
    ensures
        payload_of(messages, config, output, options, stream).contains_key(key),
        payload_of(messages, config, output, options, stream)[key] == config.provider_options[key],
{
}

} // verus!
