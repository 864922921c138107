//! Laws on what is sent to a provider: nothing of a request is lost on the way.

use crate::context_builder::MessageView;
use crate::json::{compact_text, items, member, pretty_text, text, Json};
use crate::laws::texts::{
    in_order, law_joined_holds_its_parts, lemma_in_order_each, lemma_in_order_fewer, mentions,
};
use crate::providers::adapter::AdapterCallOptionsView;
use crate::providers::anthropic::payload as anthropic;
use crate::providers::ollama;
use crate::providers::openai_compat;
use crate::providers::openai_responses::payload as responses;
use crate::schema::config::PriestConfigView;
use crate::schema::reasoning::{
    OpaqueReasoningStateView, ReasoningEffort, ReasoningSummaryMode,
};
use crate::schema::request::OutputSpecView;
use crate::schema::tools::{ToolChoiceView, ToolDefinitionView};
use crate::text::occurs_at;
use vstd::prelude::*;

verus! {

/// The tools that a call comes with.
pub open spec fn tools_in(options: Option<AdapterCallOptionsView>) -> Seq<ToolDefinitionView> {
    match options {
        Some(o) => o.tools,
        None => Seq::empty(),
    }
}

/// How many of the provider's own tools a call comes with.
pub open spec fn provider_tools_in(options: Option<AdapterCallOptionsView>) -> nat {
    match options {
        Some(o) => o.provider_tools.len(),
        None => 0,
    }
}

/// What a call says of the choice of tools.
pub open spec fn choice_in(options: Option<AdapterCallOptionsView>) -> Option<ToolChoiceView> {
    match options {
        Some(o) => o.tool_choice,
        None => None,
    }
}

/// A message asks for calls.
pub open spec fn asks_for_calls(message: MessageView) -> bool {
    message.role == "assistant"@ && message.tool_calls is Some && message.tool_calls->0.len() > 0
}

/// A tool is listed in the way of the chat completions API: under its name, with its description
/// and with its parameters, or with none where it takes none.
pub open spec fn lists_tool(listed: Json, tool: ToolDefinitionView) -> bool {
    let function = member(listed, "function"@);
    &&& member(listed, "type"@) == Json::Text("function"@)
    &&& member(function, "name"@) == Json::Text(tool.name)
    &&& member(function, "description"@) == Json::Text(tool.description)
    &&& tool.parameters matches Some(parameters) ==> member(function, "parameters"@) == parameters
    &&& tool.parameters is None ==> member(function, "parameters"@) == Json::Object(Map::empty())
}

proof fn lemma_inner_keys()
    ensures
        "role"@ != "content"@,
        "role"@ != "tool_call_id"@,
        "role"@ != "tool_calls"@,
        "role"@ != "tool_name"@,
        "content"@ != "tool_call_id"@,
        "content"@ != "tool_calls"@,
        "content"@ != "tool_name"@,
        "id"@ != "type"@,
        "id"@ != "function"@,
        "type"@ != "function"@,
        "name"@ != "arguments"@,
        "name"@ != "description"@,
        "name"@ != "parameters"@,
        "description"@ != "parameters"@,
        "type"@ != "json_schema"@,
        "name"@ != "schema"@,
        "name"@ != "strict"@,
        "schema"@ != "strict"@,
        "type"@ != "name"@,
        "type"@ != "call_id"@,
        "type"@ != "output"@,
        "type"@ != "text"@,
        "type"@ != "arguments"@,
        "type"@ != "description"@,
        "type"@ != "parameters"@,
        "type"@ != "schema"@,
        "type"@ != "strict"@,
        "call_id"@ != "output"@,
        "call_id"@ != "name"@,
        "call_id"@ != "arguments"@,
        "type"@ != "tool_use_id"@,
        "type"@ != "content"@,
        "tool_use_id"@ != "content"@,
        "type"@ != "id"@,
        "type"@ != "input"@,
        "id"@ != "name"@,
        "id"@ != "input"@,
        "name"@ != "input"@,
        "name"@ != "input_schema"@,
        "description"@ != "input_schema"@,
        "assistant"@ != "tool"@,
        "assistant"@ != "system"@,
        "tool"@ != "system"@,
{
    reveal_strlit("role");
    reveal_strlit("content");
    reveal_strlit("tool_call_id");
    reveal_strlit("tool_calls");
    reveal_strlit("tool_name");
    reveal_strlit("id");
    reveal_strlit("type");
    reveal_strlit("function");
    reveal_strlit("name");
    reveal_strlit("arguments");
    reveal_strlit("description");
    reveal_strlit("parameters");
    reveal_strlit("json_schema");
    reveal_strlit("schema");
    reveal_strlit("strict");
    reveal_strlit("call_id");
    reveal_strlit("output");
    reveal_strlit("text");
    reveal_strlit("tool_use_id");
    reveal_strlit("input");
    reveal_strlit("input_schema");
    reveal_strlit("assistant");
    reveal_strlit("tool");
    reveal_strlit("system");
    assert("role"@.len() == 4 && "content"@.len() == 7 && "tool_call_id"@.len() == 12
        && "tool_calls"@.len() == 10 && "tool_name"@.len() == 9 && "id"@.len() == 2 && "type"@.len()
        == 4 && "function"@.len() == 8 && "name"@.len() == 4 && "arguments"@.len() == 9
        && "description"@.len() == 11 && "parameters"@.len() == 10 && "json_schema"@.len() == 11
        && "schema"@.len() == 6 && "strict"@.len() == 6 && "call_id"@.len() == 7 && "output"@.len()
        == 6 && "text"@.len() == 4 && "tool_use_id"@.len() == 11 && "input"@.len() == 5
        && "input_schema"@.len() == 12 && "assistant"@.len() == 9 && "tool"@.len() == 4
        && "system"@.len() == 6);
    assert("schema"@[1] == 'c' && "strict"@[1] == 't');
    assert("type"@[0] == 't' && "name"@[0] == 'n' && "type"@[1] == 'y' && "text"@[1] == 'e');
}

// ---- The chat completions API ----

/// A message goes out with its role and its words. A result says which call it answers. What the
/// assistant asked for goes with it, each call at its place with its id, its name and its
/// arguments.
pub proof fn law_compat_messages_go_out_whole(message: MessageView)
    ensures
        ({
            let sent = openai_compat::wire_message(message);
            let calls = items(member(sent, "tool_calls"@));
            &&& member(sent, "role"@) == Json::Text(message.role)
            &&& message.content.len() > 0 ==> member(sent, "content"@) == Json::Text(
                message.content,
            )
            &&& message.content.len() == 0 ==> member(sent, "content"@) == if asks_for_calls(
                message,
            ) {
                Json::Null
            } else {
                Json::Text(message.content)
            }
            &&& message.role == "tool"@ && message.tool_call_id is Some ==> member(
                sent,
                "tool_call_id"@,
            ) == Json::Text(message.tool_call_id->0)
            &&& calls.len() == if asks_for_calls(message) {
                message.tool_calls->0.len()
            } else {
                0
            }
            &&& forall|k: int|
                0 <= k < calls.len() ==> {
                    let call = message.tool_calls->0[k];
                    let function = member(#[trigger] calls[k], "function"@);
                    &&& member(calls[k], "id"@) == Json::Text(call.id)
                    &&& member(calls[k], "type"@) == Json::Text("function"@)
                    &&& member(function, "name"@) == Json::Text(call.name)
                    &&& member(function, "arguments"@) == Json::Text(
                        compact_text(Json::Object(call.arguments)),
                    )
                }
        }),
{
    lemma_inner_keys();
}

/// Where the caller's own options do not say otherwise, a payload names the model, carries every
/// message at its place, the limit of the output, every tool with the choice of tools, and the
/// schema or the format asked for; and it asks for a stream, with its counts, if and only if one is
/// wanted.
pub proof fn law_compat_payload(
    messages: Seq<MessageView>,
    config: PriestConfigView,
    output: OutputSpecView,
    options: Option<AdapterCallOptionsView>,
    stream: bool,
)
    ensures
        ({
            let payload = openai_compat::payload_of(messages, config, output, options, stream);
            let sent = Json::Object(payload);
            let own = config.provider_options;
            let listed = items(member(sent, "messages"@));
            let tools = items(member(sent, "tools"@));
            let format = member(sent, "response_format"@);
            &&& !own.contains_key("model"@) ==> member(sent, "model"@) == Json::Text(config.model)
            &&& !own.contains_key("messages"@) ==> listed.len() == messages.len() && forall|i: int|
                0 <= i < messages.len() ==> #[trigger] listed[i] == openai_compat::wire_message(
                    messages[i],
                )
            &&& !own.contains_key("max_tokens"@) ==> match config.max_output_tokens {
                Some(n) => member(sent, "max_tokens"@) == Json::Unsigned(n as u64),
                None => !payload.contains_key("max_tokens"@),
            }
            &&& !own.contains_key("stream"@) ==> if stream {
                member(sent, "stream"@) == Json::Bool(true)
            } else {
                !payload.contains_key("stream"@)
            }
            &&& !own.contains_key("stream_options"@) ==> if stream {
                member(member(sent, "stream_options"@), "include_usage"@) == Json::Bool(true)
            } else {
                !payload.contains_key("stream_options"@)
            }
            &&& !own.contains_key("tools"@) ==> tools.len() == tools_in(options).len() && forall|
                i: int,
            |
                0 <= i < tools.len() ==> lists_tool(#[trigger] tools[i], tools_in(options)[i])
            &&& !own.contains_key("tool_choice"@) ==> if tools_in(options).len() == 0 {
                !payload.contains_key("tool_choice"@)
            } else {
                match choice_in(options) {
                    None => !payload.contains_key("tool_choice"@),
                    Some(ToolChoiceView::Auto) => member(sent, "tool_choice"@) == Json::Text(
                        "auto"@,
                    ),
                    Some(ToolChoiceView::Never) => member(sent, "tool_choice"@) == Json::Text(
                        "none"@,
                    ),
                    Some(ToolChoiceView::Required) => member(sent, "tool_choice"@) == Json::Text(
                        "required"@,
                    ),
                    Some(ToolChoiceView::Tool { name }) => member(
                        member(sent, "tool_choice"@),
                        "type"@,
                    ) == Json::Text("function"@) && member(
                        member(member(sent, "tool_choice"@), "function"@),
                        "name"@,
                    ) == Json::Text(name),
                }
            }
            &&& !own.contains_key("response_format"@) ==> match output.json_schema {
                Some(schema) => {
                    let asked = member(format, "json_schema"@);
                    &&& member(format, "type"@) == Json::Text("json_schema"@)
                    &&& member(asked, "schema"@) == schema
                    &&& member(asked, "name"@) == Json::Text(output.json_schema_name)
                    &&& member(asked, "strict"@) == Json::Bool(output.json_schema_strict)
                },
                None => if output.provider_format == Some("json"@) {
                    member(format, "type"@) == Json::Text("json_object"@)
                } else {
                    !payload.contains_key("response_format"@)
                },
            }
        }),
{
    lemma_inner_keys();
    reveal_strlit("model");
    reveal_strlit("messages");
    reveal_strlit("tools");
    reveal_strlit("tool_choice");
    reveal_strlit("stream");
    reveal_strlit("stream_options");
    reveal_strlit("max_tokens");
    reveal_strlit("response_format");
    assert("model"@.len() == 5 && "messages"@.len() == 8 && "tools"@.len() == 5
        && "tool_choice"@.len() == 11 && "stream"@.len() == 6 && "stream_options"@.len() == 14
        && "max_tokens"@.len() == 10 && "response_format"@.len() == 15);
    assert("model"@[0] == 'm' && "tools"@[0] == 't');
}

// ---- Ollama ----

/// A message goes out with its role and its words. A result says the name of the tool that it comes
/// from. What the assistant asked for goes with it, each call at its place with its name and its
/// arguments.
pub proof fn law_ollama_messages_go_out_whole(message: MessageView)
    ensures
        ({
            let sent = ollama::wire_message(message);
            let calls = items(member(sent, "tool_calls"@));
            &&& member(sent, "role"@) == Json::Text(message.role)
            &&& member(sent, "content"@) == Json::Text(message.content)
            &&& message.role == "tool"@ && message.name is Some ==> member(sent, "tool_name"@)
                == Json::Text(message.name->0)
            &&& calls.len() == if asks_for_calls(message) {
                message.tool_calls->0.len()
            } else {
                0
            }
            &&& forall|k: int|
                0 <= k < calls.len() ==> {
                    let call = message.tool_calls->0[k];
                    let function = member(#[trigger] calls[k], "function"@);
                    &&& member(function, "name"@) == Json::Text(call.name)
                    &&& member(function, "arguments"@) == Json::Object(call.arguments)
                }
        }),
{
    lemma_inner_keys();
}

/// Where the caller's own options do not say otherwise, a payload names the model, carries every
/// message at its place, says whether a stream is wanted, and carries the limit of the output,
/// every tool and the schema or the format asked for. It asks for thinking as the request does, and
/// a request for an effort that there is no word for is refused.
pub proof fn law_ollama_payload(
    messages: Seq<MessageView>,
    config: PriestConfigView,
    output: OutputSpecView,
    options: Option<AdapterCallOptionsView>,
    stream: bool,
)
    ensures
        match ollama::payload_of(messages, config, output, options, stream) {
            Err(e) => {
                &&& e is RequestInvalid
                &&& config.reasoning is Some
                &&& config.reasoning->0.effort == Some(ReasoningEffort::Minimal)
                    || config.reasoning->0.effort == Some(ReasoningEffort::XHigh)
                &&& config.reasoning->0.enabled != Some(false)
                &&& mentions(e->RequestInvalid_message, config.reasoning->0.effort->0.name())
            },
            Ok(sent) => {
                let own = config.provider_options;
                let listed = items(member(sent, "messages"@));
                let tools = items(member(sent, "tools"@));
                &&& sent is Object
                &&& !own.contains_key("model"@) ==> member(sent, "model"@) == Json::Text(
                    config.model,
                )
                &&& !own.contains_key("messages"@) ==> listed.len() == messages.len() && forall|
                    i: int,
                |
                    0 <= i < messages.len() ==> #[trigger] listed[i] == ollama::wire_message(
                        messages[i],
                    )
                &&& !own.contains_key("stream"@) ==> member(sent, "stream"@) == Json::Bool(stream)
                &&& !own.contains_key("options"@) ==> match config.max_output_tokens {
                    Some(n) => member(member(sent, "options"@), "num_predict"@) == Json::Unsigned(
                        n as u64,
                    ),
                    None => member(sent, "options"@) == Json::Null,
                }
                &&& !own.contains_key("tools"@) ==> tools.len() == tools_in(options).len()
                    && forall|i: int|
                    0 <= i < tools.len() ==> lists_tool(#[trigger] tools[i], tools_in(options)[i])
                &&& !own.contains_key("format"@) ==> match output.json_schema {
                    Some(schema) => member(sent, "format"@) == schema,
                    None => member(sent, "format"@) == if output.provider_format == Some("json"@) {
                        Json::Text("json"@)
                    } else {
                        Json::Null
                    },
                }
                &&& !own.contains_key("think"@) ==> match config.reasoning {
                    None => member(sent, "think"@) == Json::Null,
                    Some(r) => {
                        &&& r.enabled == Some(false) || r.effort == Some(ReasoningEffort::Off)
                            ==> member(sent, "think"@) == Json::Bool(false)
                        &&& r.enabled != Some(false) && r.effort is Some && r.effort != Some(
                            ReasoningEffort::Off,
                        ) ==> member(sent, "think"@) == Json::Text(r.effort->0.name())
                        &&& r.enabled == Some(true) && r.effort is None ==> member(sent, "think"@)
                            == Json::Bool(true)
                        &&& r.enabled is None && r.effort is None ==> member(sent, "think"@)
                            == Json::Null
                    },
                }
            },
        },
        config.reasoning is None ==> ollama::payload_of(
            messages,
            config,
            output,
            options,
            stream,
        ) is Ok,
        config.reasoning is Some && config.reasoning->0.enabled != Some(false) && (
        config.reasoning->0.effort == Some(ReasoningEffort::Minimal) || config.reasoning->0.effort
            == Some(ReasoningEffort::XHigh)) ==> ollama::payload_of(
            messages,
            config,
            output,
            options,
            stream,
        ) is Err,
{
    lemma_inner_keys();
    reveal_strlit("model");
    reveal_strlit("messages");
    reveal_strlit("tools");
    reveal_strlit("stream");
    reveal_strlit("options");
    reveal_strlit("think");
    reveal_strlit("format");
    assert("model"@.len() == 5 && "messages"@.len() == 8 && "tools"@.len() == 5 && "stream"@.len()
        == 6 && "options"@.len() == 7 && "think"@.len() == 5 && "format"@.len() == 6);
    assert("model"@[0] == 'm' && "tools"@[0] == 't' && "think"@[0] == 't');
    assert("tools"@[1] == 'o' && "think"@[1] == 'h');
    assert("stream"@[0] == 's' && "format"@[0] == 'f');
    if let Err(e) = ollama::payload_of(messages, config, output, options, stream) {
        let name = config.reasoning->0.effort->0.name();
        let said = e->RequestInvalid_message;
        let opening = "Ollama does not define the reasoning effort '"@;
        assert(said.subrange(opening.len() as int, (opening.len() + name.len()) as int) =~= name);
        assert(occurs_at(said, name, opening.len() as int));
    }
}

// ---- Anthropic ----

/// The last message that is not the system's is a result of a tool.
pub open spec fn ends_with_result(messages: Seq<MessageView>) -> bool
    decreases messages.len(),
{
    messages.len() > 0 && (if messages.last().role == "system"@ {
        ends_with_result(messages.drop_last())
    } else {
        messages.last().role == "tool"@
    })
}

/// A block tells a result: which call it answers, and what came of it.
pub open spec fn tells_result(block: Json, message: MessageView) -> bool {
    &&& member(block, "type"@) == Json::Text("tool_result"@)
    &&& message.tool_call_id matches Some(id) ==> member(block, "tool_use_id"@) == Json::Text(id)
    &&& member(block, "content"@) == Json::Text(message.content)
}

proof fn lemma_pending(messages: Seq<MessageView>)
    ensures
        (anthropic::turns_so_far(messages).pending.len() > 0) == ends_with_result(messages),
    decreases messages.len(),
{
    lemma_inner_keys();
    if messages.len() > 0 {
        lemma_pending(messages.drop_last());
    }
}

/// Each message adds to the turns what it is. A message of the system adds none. A result joins the
/// turn of the results right before it, or opens such a turn, which is the user's. Any other
/// message is a turn of its own with its role: its words, or, where it asks for calls, its blocks.
pub proof fn law_anthropic_messages_go_out_whole(messages: Seq<MessageView>, message: MessageView)
    ensures
        ({
            let before = anthropic::turns_of(messages);
            let after = anthropic::turns_of(messages.push(message));
            let last = after.last();
            let told = items(member(last, "content"@));
            &&& messages.len() == 0 ==> before.len() == 0
            &&& message.role == "system"@ ==> after == before
            &&& message.role == "tool"@ ==> {
                &&& after.len() > 0
                &&& member(last, "role"@) == Json::Text("user"@)
                &&& told.len() > 0
                &&& tells_result(told.last(), message)
                &&& ends_with_result(messages) ==> before.len() > 0 && after.drop_last()
                    == before.drop_last() && told.drop_last() == items(
                    member(before.last(), "content"@),
                )
                &&& !ends_with_result(messages) ==> after.drop_last() == before && told.len() == 1
            }
            &&& message.role != "system"@ && message.role != "tool"@ ==> {
                &&& after.len() > 0
                &&& after.drop_last() == before
                &&& member(last, "role"@) == Json::Text(message.role)
                &&& !asks_for_calls(message) ==> member(last, "content"@) == Json::Text(
                    message.content,
                )
                &&& asks_for_calls(message) ==> told == anthropic::assistant_blocks(
                    message,
                    message.tool_calls->0,
                )
            }
        }),
{
    lemma_inner_keys();
    lemma_pending(messages);
    assert(messages.push(message).drop_last() =~= messages);
    let s = anthropic::turns_so_far(messages);
    let before = anthropic::turns_of(messages);
    let after = anthropic::turns_of(messages.push(message));
    if message.role == "tool"@ {
        let pending = s.pending.push(anthropic::result_block(message));
        assert(after.drop_last() =~= s.turns);
        assert(pending.drop_last() =~= s.pending);
        if s.pending.len() > 0 {
            assert(before.drop_last() =~= s.turns);
        }
    } else if message.role != "system"@ {
        assert(after.drop_last() =~= before);
    }
}

/// The blocks of a message that asks for calls are, in this order: the states that its reasoning
/// goes on from, of those that this API wrote, its words, where there are any, and each call at its
/// place with its id, its name and its arguments.
pub proof fn law_anthropic_calls_go_out_whole(message: MessageView)
    requires
        asks_for_calls(message),
    ensures
        ({
            let calls = message.tool_calls->0;
            let blocks = anthropic::assistant_blocks(message, calls);
            let from = blocks.len() - calls.len();
            let words: int = if message.content.len() > 0 {
                1
            } else {
                0
            };
            &&& from >= words
            &&& words == 1 ==> member(blocks[from - 1], "type"@) == Json::Text("text"@) && member(
                blocks[from - 1],
                "text"@,
            ) == Json::Text(message.content)
            &&& forall|k: int|
                0 <= k < calls.len() ==> {
                    let block = #[trigger] blocks[from + k];
                    &&& member(block, "type"@) == Json::Text("tool_use"@)
                    &&& member(block, "id"@) == Json::Text(calls[k].id)
                    &&& member(block, "name"@) == Json::Text(calls[k].name)
                    &&& member(block, "input"@) == Json::Object(calls[k].arguments)
                }
            &&& message.reasoning is None ==> from == words
            &&& message.reasoning is Some && message.reasoning->0.continuation is None ==> from
                == words
            &&& message.reasoning is Some && message.reasoning->0.continuation is Some
                ==> blocks.take(from - words) == anthropic::known_states(
                message.reasoning->0.continuation->0,
            )
        }),
{
    lemma_inner_keys();
    let calls = message.tool_calls->0;
    let blocks = anthropic::assistant_blocks(message, calls);
    let states = anthropic::known_states(anthropic::states_of(message.reasoning));
    let words = anthropic::text_blocks(message.content);
    assert(blocks.take(states.len() as int) =~= states);
    assert forall|k: int| 0 <= k < calls.len() implies #[trigger] blocks[blocks.len() - calls.len()
        + k] == anthropic::call_block(calls[k]) by {
        assert(blocks[states.len() + words.len() + k] == anthropic::call_block(calls[k]));
    }
}

/// A state of reasoning goes back as it came where it is one that this API wrote, behind the states
/// before it; any other is left out.
pub proof fn law_states_go_back_as_they_came(
    states: Seq<OpaqueReasoningStateView>,
    state: OpaqueReasoningStateView,
)
    ensures
        anthropic::known_states(Seq::empty()).len() == 0,
        anthropic::known_states(states.push(state)) == anthropic::known_states(states) + if state.format
            == "anthropic.messages.thinking.v1"@ && state.value is Object {
            seq![state.value]
        } else {
            Seq::empty()
        },
        responses::known_states(Seq::empty()).len() == 0,
        responses::known_states(states.push(state)) == responses::known_states(states) + if state.format
            == "openai.responses.reasoning.v1"@ {
            seq![state.value]
        } else {
            Seq::empty()
        },
{
    assert(states.push(state).drop_last() =~= states);
    assert(anthropic::known_states(states).push(state.value) =~= anthropic::known_states(states)
        + seq![state.value]);
    assert(responses::known_states(states).push(state.value) =~= responses::known_states(states)
        + seq![state.value]);
    assert(anthropic::known_states(states) + Seq::<Json>::empty() =~= anthropic::known_states(
        states,
    ));
    assert(responses::known_states(states) + Seq::<Json>::empty() =~= responses::known_states(
        states,
    ));
}

proof fn lemma_system_contents(messages: Seq<MessageView>, i: int)
    requires
        0 <= i < messages.len(),
        messages[i].role == "system"@,
    ensures
        anthropic::system_contents(messages).contains(messages[i].content),
    decreases messages.len(),
{
    let all = anthropic::system_contents(messages);
    if i < messages.len() - 1 {
        lemma_system_contents(messages.drop_last(), i);
        let before = anthropic::system_contents(messages.drop_last());
        let k = choose|k: int| 0 <= k < before.len() && before[k] == messages[i].content;
        assert(all[k] == messages[i].content);
    } else {
        assert(all[all.len() - 1] == messages[i].content);
    }
}

proof fn lemma_no_system_contents(messages: Seq<MessageView>)
    ensures
        (forall|i: int| 0 <= i < messages.len() ==> (#[trigger] messages[i]).role != "system"@)
            ==> anthropic::system_contents(messages).len() == 0,
    decreases messages.len(),
{
    if messages.len() > 0 && forall|i: int|
        0 <= i < messages.len() ==> (#[trigger] messages[i]).role != "system"@ {
        let rest = messages.drop_last();
        assert forall|i: int| 0 <= i < rest.len() implies (#[trigger] rest[i]).role != "system"@ by {
            assert(rest[i] == messages[i]);
        }
        lemma_no_system_contents(rest);
        assert(messages[messages.len() - 1].role != "system"@);
    }
}

proof fn lemma_instruction_holds_the_schema(said: Seq<char>, schema: Json)
    requires
        mentions(said, anthropic::schema_instruction(schema)),
    ensures
        mentions(said, pretty_text(schema)),
{
    let instruction = anthropic::schema_instruction(schema);
    let at = choose|at: int| #[trigger] occurs_at(said, instruction, at);
    let opening =
        "Respond with a valid JSON object that conforms to the following JSON Schema:\n\n<schema>\n"@;
    let start = opening.len() as int;
    let n = pretty_text(schema).len() as int;
    assert(instruction.subrange(start, start + n) =~= pretty_text(schema));
    assert(said.subrange(at + start, at + start + n) =~= said.subrange(
        at,
        at + instruction.len(),
    ).subrange(start, start + n));
    assert(occurs_at(said, pretty_text(schema), at + start));
}

/// What the system says goes out in one text, which holds all of it and the schema that the answer
/// is to conform to; without either there is none.
#[verifier::rlimit(40)]
pub proof fn law_anthropic_system(messages: Seq<MessageView>, output: OutputSpecView)
    ensures
        match anthropic::system_of(messages, output) {
            None => output.json_schema is None && forall|i: int|
                0 <= i < messages.len() ==> (#[trigger] messages[i]).role != "system"@,
            Some(said) => {
                &&& output.json_schema is Some || exists|i: int|
                    0 <= i < messages.len() && (#[trigger] messages[i]).role == "system"@
                &&& forall|i: int|
                    0 <= i < messages.len() && (#[trigger] messages[i]).role == "system"@
                        ==> mentions(said, messages[i].content)
                &&& output.json_schema matches Some(schema) ==> mentions(said, pretty_text(schema))
                &&& in_order(said, anthropic::system_contents(messages))
            },
        },
{
    let contents = anthropic::system_contents(messages);
    let parts = match output.json_schema {
        Some(schema) => contents.push(anthropic::schema_instruction(schema)),
        None => contents,
    };
    law_joined_holds_its_parts(parts, "\n\n"@);
    lemma_no_system_contents(messages);
    if let Some(said) = anthropic::system_of(messages, output) {
        assert forall|i: int|
            0 <= i < messages.len() && (#[trigger] messages[i]).role == "system"@ implies mentions(
            said,
            messages[i].content,
        ) by {
            lemma_system_contents(messages, i);
            let k = choose|k: int| 0 <= k < contents.len() && contents[k] == messages[i].content;
            assert(parts[k] == messages[i].content);
            lemma_in_order_each(said, parts, k);
        }
        if let Some(schema) = output.json_schema {
            lemma_in_order_each(said, parts, contents.len() as int);
            lemma_instruction_holds_the_schema(said, schema);
            lemma_in_order_fewer(said, parts);
            assert(parts.drop_last() =~= contents);
        }
    } else {
        assert forall|i: int| 0 <= i < messages.len() implies (#[trigger] messages[i]).role
            != "system"@ by {
            if messages[i].role == "system"@ {
                lemma_system_contents(messages, i);
            }
        }
    }
}

/// Where the caller's own options do not say otherwise, a payload names the model, carries the
/// turns, the limit of the output, or the usual one, whether a stream is wanted, every tool with
/// the choice of tools, what the system says, and what is asked of reasoning.
pub proof fn law_anthropic_payload(
    messages: Seq<MessageView>,
    config: PriestConfigView,
    output: OutputSpecView,
    options: Option<AdapterCallOptionsView>,
    stream: bool,
)
    ensures
        ({
            let payload = anthropic::payload_of(messages, config, output, options, stream);
            let sent = Json::Object(payload);
            let own = config.provider_options;
            let tools = items(member(sent, "tools"@));
            let choice = member(sent, "tool_choice"@);
            let thinking = member(sent, "thinking"@);
            &&& !own.contains_key("model"@) ==> member(sent, "model"@) == Json::Text(config.model)
            &&& !own.contains_key("messages"@) ==> member(sent, "messages"@) == Json::List(
                anthropic::turns_of(messages),
            )
            &&& !own.contains_key("max_tokens"@) ==> match config.max_output_tokens {
                Some(n) => member(sent, "max_tokens"@) == Json::Unsigned(n as u64),
                None => member(sent, "max_tokens"@) == Json::Unsigned(8096),
            }
            &&& !own.contains_key("stream"@) ==> member(sent, "stream"@) == Json::Bool(stream)
            &&& !own.contains_key("tools"@) ==> tools.len() == tools_in(options).len() && forall|
                i: int,
            |
                0 <= i < tools.len() ==> {
                    let tool = tools_in(options)[i];
                    &&& member(#[trigger] tools[i], "name"@) == Json::Text(tool.name)
                    &&& member(tools[i], "description"@) == Json::Text(tool.description)
                    &&& tool.parameters matches Some(p) ==> member(tools[i], "input_schema"@) == p
                    &&& tool.parameters is None ==> member(
                        member(tools[i], "input_schema"@),
                        "type"@,
                    ) == Json::Text("object"@) && member(
                        member(tools[i], "input_schema"@),
                        "properties"@,
                    ) == Json::Object(Map::empty())
                }
            &&& !own.contains_key("tool_choice"@) ==> if tools_in(options).len() == 0 {
                choice == Json::Null
            } else {
                match choice_in(options) {
                    None => choice == Json::Null,
                    Some(ToolChoiceView::Auto) => member(choice, "type"@) == Json::Text("auto"@),
                    Some(ToolChoiceView::Never) => member(choice, "type"@) == Json::Text("none"@),
                    Some(ToolChoiceView::Required) => member(choice, "type"@) == Json::Text(
                        "any"@,
                    ),
                    Some(ToolChoiceView::Tool { name }) => member(choice, "type"@) == Json::Text(
                        "tool"@,
                    ) && member(choice, "name"@) == Json::Text(name),
                }
            }
            &&& !own.contains_key("system"@) ==> match anthropic::system_of(messages, output) {
                Some(said) => member(sent, "system"@) == Json::Text(said),
                None => member(sent, "system"@) == Json::Null,
            }
            &&& !own.contains_key("thinking"@) ==> match config.reasoning {
                None => thinking == Json::Null,
                Some(r) => {
                    let off = r.enabled == Some(false) || r.effort == Some(ReasoningEffort::Off);
                    let asked = r.enabled == Some(true) || r.effort is Some || r.summary is Some;
                    &&& off ==> member(thinking, "type"@) == Json::Text("disabled"@)
                    &&& !off && asked ==> member(thinking, "type"@) == Json::Text("adaptive"@)
                    &&& !off && asked ==> member(thinking, "display"@) == match r.summary {
                        Some(ReasoningSummaryMode::Auto) => Json::Text("summarized"@),
                        Some(ReasoningSummaryMode::Off) => Json::Text("omitted"@),
                        None => Json::Null,
                    }
                    &&& !off && !asked ==> thinking == Json::Null
                },
            }
            &&& !own.contains_key("output_config"@) ==> match config.reasoning {
                None => member(sent, "output_config"@) == Json::Null,
                Some(r) => match r.effort {
                    Some(effort) => if effort == ReasoningEffort::Off {
                        member(sent, "output_config"@) == Json::Null
                    } else {
                        member(member(sent, "output_config"@), "effort"@) == Json::Text(
                            effort.name(),
                        )
                    },
                    None => member(sent, "output_config"@) == Json::Null,
                },
            }
        }),
{
    lemma_inner_keys();
    reveal_strlit("model");
    reveal_strlit("messages");
    reveal_strlit("max_tokens");
    reveal_strlit("stream");
    reveal_strlit("tools");
    reveal_strlit("tool_choice");
    reveal_strlit("thinking");
    reveal_strlit("output_config");
    reveal_strlit("system");
    reveal_strlit("properties");
    reveal_strlit("display");
    reveal_strlit("type");
    reveal_strlit("name");
    assert("model"@.len() == 5 && "messages"@.len() == 8 && "max_tokens"@.len() == 10
        && "stream"@.len() == 6 && "tools"@.len() == 5 && "tool_choice"@.len() == 11
        && "thinking"@.len() == 8 && "output_config"@.len() == 13 && "system"@.len() == 6
        && "properties"@.len() == 10 && "display"@.len() == 7 && "type"@.len() == 4 && "name"@.len()
        == 4);
    assert("model"@[0] == 'm' && "tools"@[0] == 't');
    assert("messages"@[0] == 'm' && "thinking"@[0] == 't');
    assert("stream"@[1] == 't' && "system"@[1] == 'y');
}

// ---- The responses API ----

/// A message goes out as what it is: a result with the call it answers and what came of it; what
/// the assistant asked for as the states that its reasoning goes on from and each call at its place
/// with its id, its name and its arguments; and any other message with its role and its words.
pub proof fn law_responses_messages_go_out_whole(
    messages: Seq<MessageView>,
    message: MessageView,
)
    ensures
        ({
            let before = responses::input_of(messages);
            let after = responses::input_of(messages.push(message));
            let more = after.skip(before.len() as int);
            let calls = message.tool_calls->0;
            let from = more.len() - calls.len();
            let part = items(member(more[0], "content"@));
            &&& messages.len() == 0 ==> before.len() == 0
            &&& before.len() <= after.len()
            &&& after.take(before.len() as int) == before
            &&& message.role == "tool"@ ==> {
                &&& more.len() == 1
                &&& member(more[0], "type"@) == Json::Text("function_call_output"@)
                &&& member(more[0], "output"@) == Json::Text(message.content)
                &&& message.tool_call_id matches Some(id) ==> member(more[0], "call_id"@)
                    == Json::Text(id)
            }
            &&& asks_for_calls(message) ==> {
                &&& from >= 0
                &&& message.reasoning is None ==> from == 0
                &&& message.reasoning is Some && message.reasoning->0.continuation is Some
                    ==> more.take(from) == responses::known_states(
                    message.reasoning->0.continuation->0,
                )
                &&& forall|k: int|
                    0 <= k < calls.len() ==> {
                        let sent = #[trigger] more[from + k];
                        &&& member(sent, "type"@) == Json::Text("function_call"@)
                        &&& member(sent, "call_id"@) == Json::Text(calls[k].id)
                        &&& member(sent, "name"@) == Json::Text(calls[k].name)
                        &&& member(sent, "arguments"@) == Json::Text(
                            compact_text(Json::Object(calls[k].arguments)),
                        )
                    }
            }
            &&& message.role != "tool"@ && !asks_for_calls(message) ==> {
                &&& more.len() == 1
                &&& member(more[0], "role"@) == Json::Text(message.role)
                &&& part.len() == 1
                &&& member(part[0], "text"@) == Json::Text(message.content)
                &&& member(part[0], "type"@) == Json::Text(
                    if message.role == "assistant"@ {
                        "output_text"@
                    } else {
                        "input_text"@
                    },
                )
            }
        }),
{
    lemma_inner_keys();
    assert(messages.push(message).drop_last() =~= messages);
    let before = responses::input_of(messages);
    let after = responses::input_of(messages.push(message));
    let more = after.skip(before.len() as int);
    assert(after.take(before.len() as int) =~= before);
    assert(more =~= responses::message_input(message));
    if asks_for_calls(message) {
        let calls = message.tool_calls->0;
        let states = responses::known_states(responses::states_of(message.reasoning));
        let from = more.len() - calls.len();
        assert(more.take(from) =~= states);
        assert forall|k: int| 0 <= k < calls.len() implies #[trigger] more[from + k]
            == responses::call_input(calls[k]) by {
            assert(more[states.len() + k] == responses::call_input(calls[k]));
        }
    }
}

/// Where the caller's own options do not say otherwise, a payload asks that nothing is stored, and
/// carries the limit of the output, what is asked of reasoning, the schema or the format asked for,
/// every tool, the provider's own first, and the choice of tools.
pub proof fn law_responses_payload(
    messages: Seq<MessageView>,
    config: PriestConfigView,
    output: OutputSpecView,
    options: Option<AdapterCallOptionsView>,
    stream: bool,
)
    ensures
        ({
            let payload = responses::payload_of(messages, config, output, options, stream);
            let sent = Json::Object(payload);
            let own = config.provider_options;
            let tools = items(member(sent, "tools"@));
            let given = provider_tools_in(options);
            let choice = member(sent, "tool_choice"@);
            let format = member(member(sent, "text"@), "format"@);
            let reasoning = member(sent, "reasoning"@);
            &&& member(sent, "model"@) == Json::Text(config.model)
            &&& member(sent, "input"@) == Json::List(responses::input_of(messages))
            &&& member(sent, "stream"@) == Json::Bool(stream)
            &&& !own.contains_key("store"@) ==> member(sent, "store"@) == Json::Bool(false)
            &&& !own.contains_key("max_output_tokens"@) ==> match config.max_output_tokens {
                Some(n) => member(sent, "max_output_tokens"@) == Json::Unsigned(n as u64),
                None => member(sent, "max_output_tokens"@) == Json::Null,
            }
            &&& !own.contains_key("tools"@) ==> {
                &&& tools.len() == given + tools_in(options).len()
                &&& forall|i: int|
                    0 <= i < given ==> member(#[trigger] tools[i], "type"@) == Json::Text(
                        options->0.provider_tools[i].wire_name(),
                    )
                &&& forall|i: int|
                    0 <= i < tools_in(options).len() ==> {
                        let tool = tools_in(options)[i];
                        let listed = #[trigger] tools[given + i];
                        &&& member(listed, "type"@) == Json::Text("function"@)
                        &&& member(listed, "name"@) == Json::Text(tool.name)
                        &&& member(listed, "description"@) == Json::Text(tool.description)
                        &&& tool.parameters matches Some(p) ==> member(listed, "parameters"@) == p
                        &&& tool.parameters is None ==> member(listed, "parameters"@)
                            == Json::Object(Map::empty())
                    }
            }
            &&& !own.contains_key("tool_choice"@) ==> if tools_in(options).len() == 0 {
                choice == Json::Null
            } else {
                match choice_in(options) {
                    None => choice == Json::Null,
                    Some(ToolChoiceView::Auto) => choice == Json::Text("auto"@),
                    Some(ToolChoiceView::Never) => choice == Json::Text("none"@),
                    Some(ToolChoiceView::Required) => choice == Json::Text("required"@),
                    Some(ToolChoiceView::Tool { name }) => member(choice, "type"@) == Json::Text(
                        "function"@,
                    ) && member(choice, "name"@) == Json::Text(name),
                }
            }
            &&& !own.contains_key("text"@) ==> match output.json_schema {
                Some(schema) => {
                    &&& member(format, "type"@) == Json::Text("json_schema"@)
                    &&& member(format, "name"@) == Json::Text(output.json_schema_name)
                    &&& member(format, "schema"@) == schema
                    &&& member(format, "strict"@) == Json::Bool(output.json_schema_strict)
                },
                None => if output.provider_format == Some("json"@) {
                    member(format, "type"@) == Json::Text("json_object"@)
                } else {
                    member(sent, "text"@) == Json::Null
                },
            }
            &&& !own.contains_key("reasoning"@) ==> match config.reasoning {
                None => reasoning == Json::Null,
                Some(r) => {
                    &&& member(reasoning, "effort"@) == match r.effort {
                        Some(effort) => Json::Text(effort.name()),
                        None => if r.enabled == Some(false) {
                            Json::Text("none"@)
                        } else {
                            Json::Null
                        },
                    }
                    &&& member(reasoning, "summary"@) == if r.summary == Some(
                        ReasoningSummaryMode::Auto,
                    ) {
                        Json::Text("auto"@)
                    } else {
                        Json::Null
                    }
                },
            }
        }),
{
    lemma_inner_keys();
    reveal_strlit("store");
    reveal_strlit("max_output_tokens");
    reveal_strlit("reasoning");
    reveal_strlit("text");
    reveal_strlit("tools");
    reveal_strlit("tool_choice");
    reveal_strlit("model");
    reveal_strlit("input");
    reveal_strlit("stream");
    reveal_strlit("effort");
    reveal_strlit("summary");
    assert("store"@.len() == 5 && "max_output_tokens"@.len() == 17 && "reasoning"@.len() == 9
        && "text"@.len() == 4 && "tools"@.len() == 5 && "tool_choice"@.len() == 11 && "model"@.len()
        == 5 && "input"@.len() == 5 && "stream"@.len() == 6 && "effort"@.len() == 6
        && "summary"@.len() == 7);
    assert("store"@[0] == 's' && "tools"@[0] == 't' && "model"@[0] == 'm' && "input"@[0] == 'i');
    let o = crate::providers::adapter::options_or_none(options);
    let listed = responses::tools_request(o);
    assert forall|i: int| 0 <= i < o.tools.len() implies #[trigger] listed[o.provider_tools.len()
        + i] == responses::function_tool(o.tools[i]) by {}
    if let Some(r) = config.reasoning {
        if responses::reasoning_members(r) == crate::json::no_members() {
            assert(!responses::reasoning_members(r).contains_key("effort"@));
            assert(!responses::reasoning_members(r).contains_key("summary"@));
        } else {
        }
    }
}

} // verus!
