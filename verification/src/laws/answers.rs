//! Laws on complete answers: what a result holds of what a provider sent.

use crate::json::{items, member, members, text, unsigned_32, Json};
use crate::laws::texts::{
    in_order, law_joined_holds_its_parts, lemma_in_order_one, lemma_joined_holds, mentions,
};
use crate::providers::adapter::AdapterResultView;
use crate::providers::anthropic::content as anthropic;
use crate::providers::anthropic::content::{AnthropicContentView, AnthropicResponseView};
use crate::providers::ollama;
use crate::providers::ollama::OllamaResponseView;
use crate::providers::openai_compat;
use crate::providers::openai_compat::{OAIChoiceView, OAIResponseView};
use crate::providers::openai_responses::response as responses;
use crate::schema::reasoning::{OpaqueReasoningStateView, ReasoningInfoView};
use crate::schema::tools::{arguments_in_text, synthesized_id, ToolCallView};
use crate::text::{if_not_empty, joined, not_empty, occurs_at};
use vstd::prelude::*;

verus! {

/// The calls that an answer asks for.
pub open spec fn calls_in_answer(answer: AdapterResultView) -> Seq<ToolCallView> {
    match answer.tool_calls {
        Some(calls) => calls,
        None => Seq::empty(),
    }
}

// ---- The chat completions API ----

/// An answer with at least one choice is read, one without any is an error of the provider. The
/// text is the first choice's content, character for character, and empty only where that is
/// missing or empty. The counts are those that the answer gives. The reason why it ended is the
/// choice's own, where it is one of the known ones, unless the answer asks for calls. Nothing is
/// said of reasoning.
pub proof fn law_compat_text_is_the_first_choice(provider: Seq<char>, data: OAIResponseView)
    ensures
        match openai_compat::result_of(provider, data) {
            Err(e) => data.choices.len() == 0 && e is ProviderError && e->ProviderError_provider
                == provider,
            Ok(r) => {
                let choice = data.choices[0];
                &&& data.choices.len() > 0
                &&& choice.content matches Some(t) ==> r.text == t
                &&& choice.content is None ==> r.text.len() == 0
                &&& r.text.len() == 0 ==> choice.content is None || choice.content->0.len() == 0
                &&& data.usage matches Some(usage) ==> r.input_tokens == usage.prompt_tokens
                    && r.output_tokens == usage.completion_tokens && r.cached_input_tokens
                    == usage.cached_tokens
                &&& data.usage is None ==> r.input_tokens is None && r.output_tokens is None
                    && r.cached_input_tokens is None
                &&& r.reasoning_tokens is None
                &&& r.reasoning is None
                &&& r.tool_calls is Some ==> r.tool_calls->0.len() > 0 && r.finish_reason == Some(
                    "tool_calls"@,
                )
                &&& r.tool_calls is None ==> {
                    &&& r.finish_reason is Some <==> choice.finish_reason is Some
                    &&& choice.finish_reason matches Some(reason) ==> r.finish_reason == Some(
                        if reason == "stop"@ || reason == "length"@ || reason
                            == "content_filter"@ || reason == "tool_calls"@ {
                            reason
                        } else {
                            "unknown"@
                        },
                    )
                }
            },
        },
        data.choices.len() > 0 ==> openai_compat::result_of(provider, data) is Ok,
{
    reveal_strlit("");
}

/// Each item that names a function is a call, at its place behind the calls before it, with its own
/// id, name and arguments; an item without an id gets one by its place; an item that names no
/// function is none. An answer that lists no items asks for no calls.
pub proof fn law_compat_calls(
    provider: Seq<char>,
    data: OAIResponseView,
    choice: OAIChoiceView,
    raw: Seq<Json>,
    item: Json,
)
    requires
        data.choices.len() > 0,
    ensures
        ({
            let with_raw = |listed: Option<Seq<Json>>|
                calls_in_answer(
                    openai_compat::result_of(
                        provider,
                        OAIResponseView {
                            choices: data.choices.update(
                                0,
                                OAIChoiceView { tool_calls: listed, ..choice },
                            ),
                            ..data
                        },
                    )->Ok_0,
                );
            let function = member(item, "function"@);
            &&& with_raw(None) == Seq::<ToolCallView>::empty()
            &&& with_raw(Some(Seq::empty())) == Seq::<ToolCallView>::empty()
            &&& text(member(function, "name"@)) is None ==> with_raw(Some(raw.push(item)))
                == with_raw(Some(raw))
            &&& text(member(function, "name"@)) matches Some(name) ==> with_raw(
                Some(raw.push(item)),
            ) == with_raw(Some(raw)).push(
                ToolCallView {
                    id: match member(item, "id"@) {
                        Json::Text(id) => id,
                        _ => synthesized_id(raw.len()),
                    },
                    name,
                    arguments: match member(function, "arguments"@) {
                        Json::Text(arguments) => arguments_in_text(arguments),
                        _ => Map::empty(),
                    },
                },
            )
        }),
{
    assert(raw.push(item).drop_last() =~= raw);
    reveal_with_fuel(openai_compat::calls_in, 2);
}

// ---- Ollama ----

/// The text is the message's content, the counts are those that the answer gives, and the reason
/// why it ended is the one given, unless the answer asks for calls. Nothing is said of reasoning.
pub proof fn law_ollama_text_is_the_content(data: OllamaResponseView)
    ensures
        ({
            let r = ollama::result_of(data);
            &&& r.text == data.content
            &&& r.input_tokens == data.prompt_eval_count
            &&& r.output_tokens == data.eval_count
            &&& r.cached_input_tokens is None
            &&& r.reasoning_tokens is None
            &&& r.reasoning is None
            &&& r.tool_calls is Some ==> r.tool_calls->0.len() > 0 && r.finish_reason == Some(
                "tool_calls"@,
            )
            &&& r.tool_calls is None ==> {
                &&& r.finish_reason is Some <==> data.done_reason is Some
                &&& data.done_reason == Some("stop"@) || data.done_reason == Some("load"@)
                    ==> r.finish_reason == Some("stop"@)
                &&& data.done_reason == Some("length"@) ==> r.finish_reason == Some("length"@)
                &&& data.done_reason is Some && data.done_reason != Some("stop"@)
                    && data.done_reason != Some("load"@) && data.done_reason != Some("length"@)
                    ==> r.finish_reason == Some("unknown"@)
            }
        }),
{
    reveal_strlit("stop");
    reveal_strlit("load");
    reveal_strlit("length");
    assert("length"@ != "stop"@) by {
        assert("length"@.len() == 6);
    }
    assert("length"@ != "load"@) by {
        assert("length"@.len() == 6);
    }
}

/// Each item is a call of the function it names, with that function's arguments, at its place
/// behind the calls before it, and gets an id by that place; a function without a name is no call.
/// One item without a function, and no calls are read at all.
pub proof fn law_ollama_calls(data: OllamaResponseView, raw: Seq<Json>, item: Json)
    ensures
        ({
            let with_raw = |listed: Option<Seq<Json>>|
                calls_in_answer(
                    ollama::result_of(OllamaResponseView { tool_calls: listed, ..data }),
                );
            let function = member(item, "function"@);
            let before = with_raw(Some(raw));
            &&& with_raw(None) == Seq::<ToolCallView>::empty()
            &&& with_raw(Some(Seq::empty())) == Seq::<ToolCallView>::empty()
            &&& !members(item).contains_key("function"@) ==> with_raw(Some(raw.push(item)))
                == Seq::<ToolCallView>::empty()
            &&& (forall|i: int|
                0 <= i < raw.len() ==> members(#[trigger] raw[i]).contains_key("function"@))
                && members(item).contains_key("function"@) ==> with_raw(Some(raw.push(item)))
                == match member(function, "name"@) {
                Json::Text(name) => before.push(
                    ToolCallView {
                        id: synthesized_id(before.len()),
                        name,
                        arguments: match member(function, "arguments"@) {
                            Json::Object(arguments) => arguments,
                            _ => Map::empty(),
                        },
                    },
                ),
                _ => before,
            }
        }),
{
    assert(raw.push(item).drop_last() =~= raw);
    reveal_with_fuel(ollama::calls_in, 2);
    if forall|i: int|
        0 <= i < raw.len() ==> members(#[trigger] raw[i]).contains_key("function"@) {
        lemma_ollama_calls_are_read(raw);
    }
}

proof fn lemma_ollama_calls_are_read(raw: Seq<Json>)
    requires
        forall|i: int|
            0 <= i < raw.len() ==> members(#[trigger] raw[i]).contains_key("function"@),
    ensures
        ollama::calls_in(raw) is Some,
    decreases raw.len(),
{
    if raw.len() > 0 {
        assert forall|i: int| 0 <= i < raw.drop_last().len() implies members(
            #[trigger] raw.drop_last()[i],
        ).contains_key("function"@) by {
            assert(raw.drop_last()[i] == raw[i]);
        }
        lemma_ollama_calls_are_read(raw.drop_last());
        assert(members(raw[raw.len() - 1]).contains_key("function"@));
    }
}

// ---- Anthropic ----

/// Each block of an answer adds to the result what it is: a text its text, behind the texts before
/// it; a use of a tool a call with its own id, name and input, behind the calls before it; and
/// neither adds to the other. A block without an id gets one by its place. An answer without blocks
/// has no text, no calls and no reasoning.
pub proof fn law_anthropic_blocks_add_up(data: AnthropicResponseView, block: AnthropicContentView)
    ensures
        ({
            let longer = AnthropicResponseView { content: data.content.push(block), ..data };
            let before = anthropic::result_of(data);
            let after = anthropic::result_of(longer);
            &&& data.content.len() == 0 ==> before.text.len() == 0 && before.tool_calls is None
                && before.reasoning is None
            &&& after.text == before.text + if block.kind == "text"@ && block.text is Some {
                block.text->0
            } else {
                Seq::empty()
            }
            &&& calls_in_answer(after) == calls_in_answer(before) + if block.kind == "tool_use"@
                && block.name is Some {
                seq![
                    ToolCallView {
                        id: match block.id {
                            Some(id) => id,
                            None => synthesized_id(data.content.len()),
                        },
                        name: block.name->0,
                        arguments: match block.input {
                            Some(Json::Object(input)) => input,
                            _ => Map::empty(),
                        },
                    },
                ]
            } else {
                Seq::empty()
            }
        }),
{
    let longer = data.content.push(block);
    assert(longer.drop_last() =~= data.content);
    assert(anthropic::text_in(data.content) + Seq::<char>::empty()
        =~= anthropic::text_in(data.content));
    assert(anthropic::calls_in(data.content) + Seq::<ToolCallView>::empty()
        =~= anthropic::calls_in(data.content));
    if anthropic::call_in(block, data.content.len()) is Some {
        let call = anthropic::call_in(block, data.content.len())->0;
        assert(anthropic::calls_in(data.content).push(call) =~= anthropic::calls_in(data.content)
            + seq![call]);
    }
}

/// The counts are those that the answer gives, and the reason why it ended is the one given, unless
/// the answer asks for calls.
pub proof fn law_anthropic_counts_and_reason(data: AnthropicResponseView)
    ensures
        ({
            let r = anthropic::result_of(data);
            &&& data.usage matches Some(usage) ==> r.input_tokens == usage.input_tokens
                && r.output_tokens == usage.output_tokens && r.cached_input_tokens
                == usage.cache_read_input_tokens && r.reasoning_tokens == usage.thinking_tokens
            &&& data.usage is None ==> r.input_tokens is None && r.output_tokens is None
                && r.cached_input_tokens is None && r.reasoning_tokens is None
            &&& r.tool_calls is Some ==> r.tool_calls->0.len() > 0 && r.finish_reason == Some(
                "tool_calls"@,
            )
            &&& r.tool_calls is None ==> {
                let reason = data.stop_reason;
                &&& r.finish_reason is Some <==> reason is Some
                &&& reason == Some("end_turn"@) || reason == Some("stop_sequence"@)
                    ==> r.finish_reason == Some("stop"@)
                &&& reason == Some("max_tokens"@) ==> r.finish_reason == Some("length"@)
                &&& reason == Some("tool_use"@) ==> r.finish_reason == Some("tool_calls"@)
                &&& reason is Some && reason != Some("end_turn"@) && reason != Some(
                    "stop_sequence"@,
                ) && reason != Some("max_tokens"@) && reason != Some("tool_use"@)
                    ==> r.finish_reason == Some("unknown"@)
            }
        }),
{
    reveal_strlit("end_turn");
    reveal_strlit("stop_sequence");
    reveal_strlit("max_tokens");
    reveal_strlit("tool_use");
    assert("end_turn"@.len() == 8 && "stop_sequence"@.len() == 13 && "max_tokens"@.len() == 10
        && "tool_use"@.len() == 8);
    assert("end_turn"@[0] != "tool_use"@[0]);
}

/// The texts of the thinking blocks, in order.
pub open spec fn thoughts(content: Seq<AnthropicContentView>) -> Seq<Seq<char>> {
    Seq::new(
        content.len(),
        |i: int|
            if content[i].kind == "thinking"@ && content[i].thinking is Some {
                content[i].thinking->0
            } else {
                Seq::empty()
            },
    )
}

proof fn lemma_thoughts(content: Seq<AnthropicContentView>)
    ensures
        in_order(joined(anthropic::summaries_in(content), "\n\n"@), thoughts(content)),
        anthropic::summaries_in(content).len() > 0 <==> exists|i: int|
            0 <= i < content.len() && (#[trigger] thoughts(content)[i]).len() > 0,
    decreases content.len(),
{
    let all = thoughts(content);
    if content.len() > 0 {
        let rest = content.drop_last();
        lemma_thoughts(rest);
        let last = all.last();
        assert(all.drop_last() =~= thoughts(rest));
        assert(anthropic::summaries_in(content) =~= anthropic::summaries_in(rest) + if_not_empty(
            last,
        ));
        lemma_in_order_one(joined(if_not_empty(last), "\n\n"@), last);
        lemma_joined_holds(
            anthropic::summaries_in(rest),
            thoughts(rest),
            if_not_empty(last),
            seq![last],
            "\n\n"@,
        );
        assert(thoughts(rest) + seq![last] =~= all);
        if anthropic::summaries_in(rest).len() > 0 {
            let i = choose|i: int| 0 <= i < rest.len() && (#[trigger] thoughts(rest)[i]).len() > 0;
            assert(all[i] == thoughts(rest)[i]);
        } else if last.len() == 0 {
            assert forall|i: int| 0 <= i < content.len() implies (#[trigger] all[i]).len() == 0 by {
                if i < rest.len() {
                    assert(all[i] == thoughts(rest)[i]);
                }
            }
        }
    }
}

/// The states that reasoning goes on from.
pub open spec fn states_in_reasoning(
    reasoning: Option<ReasoningInfoView>,
) -> Seq<OpaqueReasoningStateView> {
    match reasoning {
        Some(info) => match info.continuation {
            Some(states) => states,
            None => Seq::empty(),
        },
        None => Seq::empty(),
    }
}

/// The reasoning of an answer: its summary holds every text that the model thought, in order, and
/// is there where there is any; what reasoning goes on from is kept where the answer asks for
/// calls, each block of thinking, redacted or not, as it was written and at its place.
pub proof fn law_anthropic_reasoning(data: AnthropicResponseView, block: AnthropicContentView)
    ensures
        ({
            let r = anthropic::result_of(data);
            let longer = AnthropicResponseView { content: data.content.push(block), ..data };
            let after = anthropic::result_of(longer);
            let is_thought = block.kind == "thinking"@ || block.kind == "redacted_thinking"@;
            &&& r.reasoning is Some ==> r.reasoning->0.summary is Some
                || r.reasoning->0.continuation is Some
            &&& (r.reasoning is Some && r.reasoning->0.summary is Some) <==> exists|i: int|
                0 <= i < data.content.len() && (#[trigger] thoughts(data.content)[i]).len() > 0
            &&& r.reasoning is Some && r.reasoning->0.summary is Some ==> in_order(
                r.reasoning->0.summary->0,
                thoughts(data.content),
            )
            &&& r.tool_calls is None ==> states_in_reasoning(r.reasoning).len() == 0
            &&& data.content.len() == 0 ==> states_in_reasoning(r.reasoning).len() == 0
            &&& r.tool_calls is Some && is_thought ==> states_in_reasoning(after.reasoning)
                == states_in_reasoning(r.reasoning).push(
                OpaqueReasoningStateView {
                    format: "anthropic.messages.thinking.v1"@,
                    value: Json::Object(anthropic::written(block)),
                },
            )
            &&& r.tool_calls is Some && !is_thought ==> states_in_reasoning(after.reasoning)
                == states_in_reasoning(r.reasoning)
        }),
{
    lemma_thoughts(data.content);
    assert(data.content.push(block).drop_last() =~= data.content);
}

/// A block is written with its kind and what it holds of a text, an id, a name, an input, thinking
/// and a signature, each under its name, and with whatever else came with it.
pub proof fn law_anthropic_blocks_are_written_whole(block: AnthropicContentView, key: Seq<char>)
    requires
        forall|k: Seq<char>| #[trigger]
            block.extra.contains_key(k) ==> k != "type"@ && k != "text"@ && k != "id"@ && k
                != "name"@ && k != "input"@ && k != "thinking"@ && k != "signature"@,
    ensures
        ({
            let value = Json::Object(anthropic::written(block));
            &&& member(value, "type"@) == Json::Text(block.kind)
            &&& block.text matches Some(t) ==> member(value, "text"@) == Json::Text(t)
            &&& block.id matches Some(t) ==> member(value, "id"@) == Json::Text(t)
            &&& block.name matches Some(t) ==> member(value, "name"@) == Json::Text(t)
            &&& block.input matches Some(v) ==> member(value, "input"@) == v
            &&& block.thinking matches Some(t) ==> member(value, "thinking"@) == Json::Text(t)
            &&& block.signature matches Some(t) ==> member(value, "signature"@) == Json::Text(t)
            &&& block.extra.contains_key(key) ==> member(value, key) == block.extra[key]
        }),
{
    lemma_block_keys();
}

proof fn lemma_block_keys()
    ensures
        "type"@ != "text"@,
        "type"@ != "id"@,
        "type"@ != "name"@,
        "type"@ != "input"@,
        "type"@ != "thinking"@,
        "type"@ != "signature"@,
        "text"@ != "id"@,
        "text"@ != "name"@,
        "text"@ != "input"@,
        "text"@ != "thinking"@,
        "text"@ != "signature"@,
        "id"@ != "name"@,
        "id"@ != "input"@,
        "id"@ != "thinking"@,
        "id"@ != "signature"@,
        "name"@ != "input"@,
        "name"@ != "thinking"@,
        "name"@ != "signature"@,
        "input"@ != "thinking"@,
        "input"@ != "signature"@,
        "thinking"@ != "signature"@,
{
    reveal_strlit("type");
    reveal_strlit("text");
    reveal_strlit("id");
    reveal_strlit("name");
    reveal_strlit("input");
    reveal_strlit("thinking");
    reveal_strlit("signature");
    assert("type"@.len() == 4 && "text"@.len() == 4 && "name"@.len() == 4);
    assert("id"@.len() == 2 && "input"@.len() == 5 && "thinking"@.len() == 8 && "signature"@.len()
        == 9);
    assert("type"@[1] == 'y' && "text"@[1] == 'e' && "name"@[1] == 'a');
}

// ---- The responses API ----

/// The texts of the parts of a message, in order.
pub open spec fn texts_of_parts(parts: Seq<Json>) -> Seq<Seq<char>> {
    Seq::new(
        parts.len(),
        |i: int|
            match member(parts[i], "text"@) {
                Json::Text(t) if member(parts[i], "type"@) == Json::Text("output_text"@) => t,
                _ => Seq::empty(),
            },
    )
}

proof fn lemma_message_text(parts: Seq<Json>)
    ensures
        responses::message_text(parts) == joined(texts_of_parts(parts), ""@),
    decreases parts.len(),
{
    reveal_strlit("");
    if parts.len() > 0 {
        let rest = parts.drop_last();
        lemma_message_text(rest);
        assert(texts_of_parts(parts).drop_last() =~= texts_of_parts(rest));
        assert(joined(texts_of_parts(parts), ""@) =~= joined(texts_of_parts(rest), ""@)
            + texts_of_parts(parts).last());
        assert(parts.last() == parts[parts.len() - 1]);
    }
}

/// Each item of an answer adds to what is gathered from it what it is: a message its texts, behind
/// the texts before it; a call of a function that has a name a call with its own id, name and
/// arguments, behind the calls before it. No other item adds a text or a call. A call without an id
/// gets one by its place among the calls.
pub proof fn law_responses_items_add_up(output: Seq<Json>, item: Json)
    ensures
        ({
            let before = responses::gathered(output);
            let after = responses::gathered(output.push(item));
            let kind = member(item, "type"@);
            &&& output.len() == 0 ==> before.text.len() == 0 && before.tool_calls.len() == 0
                && before.summaries.len() == 0 && before.states.len() == 0
            &&& kind == Json::Text("message"@) ==> after.text == before.text + joined(
                texts_of_parts(items(member(item, "content"@))),
                ""@,
            )
            &&& kind != Json::Text("message"@) ==> after.text == before.text
            &&& kind == Json::Text("function_call"@) && (member(item, "name"@) matches Json::Text(
                name,
            ) && name.len() > 0) ==> after.tool_calls == before.tool_calls.push(
                ToolCallView {
                    id: match (member(item, "call_id"@), member(item, "id"@)) {
                        (Json::Text(id), _) => id,
                        (_, Json::Text(id)) => id,
                        _ => synthesized_id(before.tool_calls.len()),
                    },
                    name: text(member(item, "name"@))->0,
                    arguments: match member(item, "arguments"@) {
                        Json::Text(arguments) => arguments_in_text(arguments),
                        _ => arguments_in_text(""@),
                    },
                },
            )
            &&& !(kind == Json::Text("function_call"@) && (member(item, "name"@) matches Json::Text(
                name,
            ) && name.len() > 0)) ==> after.tool_calls == before.tool_calls
        }),
{
    assert(output.push(item).drop_last() =~= output);
    lemma_message_text(items(member(item, "content"@)));
    reveal_strlit("message");
    reveal_strlit("function_call");
    reveal_strlit("reasoning");
    assert("message"@.len() == 7 && "function_call"@.len() == 13 && "reasoning"@.len() == 9);
    let before = responses::gathered(output);
    assert(before.text + Seq::<char>::empty() =~= before.text);
}

/// An answer that failed, was cancelled or comes with an error is an error of the provider, which
/// says what the provider said of it. Any other answer is read: the text and the calls are those
/// gathered from its output, the counts those that it gives.
pub proof fn law_responses_answers(data: Json)
    ensures
        match responses::result_of(data) {
            Err(e) => {
                let said = member(data, "error"@);
                &&& member(data, "status"@) == Json::Text("failed"@) || member(data, "status"@)
                    == Json::Text("cancelled"@) || said != Json::Null
                &&& e is ProviderError
                &&& member(said, "message"@) matches Json::Text(t) ==> mentions(
                    e->ProviderError_message,
                    t,
                )
                &&& member(said, "code"@) matches Json::Text(t) ==> occurs_at(
                    e->ProviderError_message,
                    t,
                    0,
                )
                &&& !(member(said, "message"@) is Text) && member(data, "status"@) is Text
                    ==> mentions(
                    e->ProviderError_message,
                    text(member(data, "status"@))->0,
                )
            },
            Ok(r) => {
                let found = responses::gathered(items(member(data, "output"@)));
                let usage = member(data, "usage"@);
                &&& member(data, "status"@) != Json::Text("failed"@)
                &&& member(data, "status"@) != Json::Text("cancelled"@)
                &&& member(data, "error"@) == Json::Null
                &&& r.text == found.text
                &&& calls_in_answer(r) == found.tool_calls
                &&& r.tool_calls is Some <==> found.tool_calls.len() > 0
                &&& r.input_tokens == unsigned_32(member(usage, "input_tokens"@))
                &&& r.output_tokens == unsigned_32(member(usage, "output_tokens"@))
                &&& r.cached_input_tokens == unsigned_32(
                    member(member(usage, "input_tokens_details"@), "cached_tokens"@),
                )
                &&& r.reasoning_tokens == unsigned_32(
                    member(member(usage, "output_tokens_details"@), "reasoning_tokens"@),
                )
                &&& r.finish_reason is Some
                &&& r.tool_calls is Some ==> r.finish_reason == Some("tool_calls"@)
                &&& r.tool_calls is None && (member(data, "status"@) == Json::Text("completed"@) || !(
                member(data, "status"@) is Text)) ==> r.finish_reason == Some("stop"@)
                &&& r.tool_calls is None && member(data, "status"@) is Text && member(
                    data,
                    "status"@,
                ) != Json::Text("completed"@) && member(data, "status"@) != Json::Text(
                    "incomplete"@,
                ) ==> r.finish_reason == Some("unknown"@)
                &&& r.tool_calls is None && member(data, "status"@) == Json::Text("incomplete"@)
                    ==> {
                    let reason = member(member(data, "incomplete_details"@), "reason"@);
                    &&& reason == Json::Text("max_output_tokens"@) ==> r.finish_reason == Some(
                        "length"@,
                    )
                    &&& reason == Json::Text("content_filter"@) ==> r.finish_reason == Some(
                        "content_filter"@,
                    )
                    &&& reason != Json::Text("max_output_tokens"@) && reason != Json::Text(
                        "content_filter"@,
                    ) ==> r.finish_reason == Some("unknown"@)
                }
                &&& r.reasoning is Some && r.reasoning->0.summary is Some <==> found.summaries.len()
                    > 0
                &&& r.reasoning is Some && r.reasoning->0.summary is Some ==> in_order(
                    r.reasoning->0.summary->0,
                    found.summaries,
                )
                &&& states_in_reasoning(r.reasoning) == if found.tool_calls.len() > 0 {
                    found.states
                } else {
                    Seq::empty()
                }
            },
        },
{
    reveal_strlit("max_output_tokens");
    reveal_strlit("content_filter");
    reveal_strlit("completed");
    reveal_strlit("incomplete");
    assert("max_output_tokens"@.len() == 17 && "content_filter"@.len() == 14 && "completed"@.len()
        == 9 && "incomplete"@.len() == 10);
    law_joined_holds_its_parts(
        responses::gathered(items(member(data, "output"@))).summaries,
        "\n\n"@,
    );
    let said = member(data, "error"@);
    let told = responses::failure_text(data);
    if let Json::Text(t) = member(said, "message"@) {
        let at = told.len() - t.len();
        assert(told.subrange(at, told.len() as int) =~= t);
        assert(occurs_at(told, t, at));
    }
    if let Json::Text(t) = member(said, "code"@) {
        assert(told.subrange(0, t.len() as int) =~= t);
    }
    if let Json::Text(t) = member(data, "status"@) {
        if !(member(said, "message"@) is Text) {
            let at = told.len() - t.len();
            assert(told.subrange(at, told.len() as int) =~= t);
            assert(occurs_at(told, t, at));
        }
    }
}

/// The texts of the parts of a summary of reasoning, in order.
pub open spec fn summaries_of_parts(parts: Seq<Json>) -> Seq<Seq<char>> {
    Seq::new(
        parts.len(),
        |i: int|
            match member(parts[i], "text"@) {
                Json::Text(t) if member(parts[i], "type"@) == Json::Text("summary_text"@) => t,
                _ => Seq::empty(),
            },
    )
}

proof fn lemma_reasoning_summaries(parts: Seq<Json>)
    ensures
        responses::reasoning_summaries(parts) == not_empty(summaries_of_parts(parts)),
    decreases parts.len(),
{
    if parts.len() > 0 {
        let rest = parts.drop_last();
        lemma_reasoning_summaries(rest);
        assert(summaries_of_parts(parts).drop_last() =~= summaries_of_parts(rest));
        assert(parts.last() == parts[parts.len() - 1]);
    }
}

/// An item of reasoning adds the texts of its summary that are not empty, in order. It adds a state
/// to go on from where it can be sent back: where it shows no raw thinking and has an id or
/// encrypted content. That state keeps the item's id, status, summary and encrypted content as they
/// came. No other item adds to either.
pub proof fn law_responses_reasoning_adds_up(output: Seq<Json>, item: Json)
    ensures
        ({
            let before = responses::gathered(output);
            let after = responses::gathered(output.push(item));
            let is_reasoning = member(item, "type"@) == Json::Text("reasoning"@);
            let raw = items(member(item, "content"@));
            &&& !is_reasoning ==> after.summaries == before.summaries && after.states
                == before.states
            &&& is_reasoning ==> after.summaries == before.summaries + not_empty(
                summaries_of_parts(items(member(item, "summary"@))),
            )
            &&& is_reasoning && (raw.len() > 0 || (member(item, "encrypted_content"@) == Json::Null
                && member(item, "id"@) == Json::Null)) ==> after.states == before.states
            &&& is_reasoning && raw.len() == 0 && (member(item, "encrypted_content"@) != Json::Null
                || member(item, "id"@) != Json::Null) ==> {
                let state = after.states.last();
                &&& after.states == before.states.push(state)
                &&& state.format == "openai.responses.reasoning.v1"@
                &&& member(state.value, "type"@) == Json::Text("reasoning"@)
                &&& member(state.value, "id"@) == member(item, "id"@)
                &&& member(state.value, "status"@) == member(item, "status"@)
                &&& member(state.value, "summary"@) == member(item, "summary"@)
                &&& member(state.value, "encrypted_content"@) == member(item, "encrypted_content"@)
            }
        }),
{
    assert(output.push(item).drop_last() =~= output);
    lemma_reasoning_summaries(items(member(item, "summary"@)));
    reveal_strlit("message");
    reveal_strlit("function_call");
    reveal_strlit("reasoning");
    assert("message"@.len() == 7 && "function_call"@.len() == 13 && "reasoning"@.len() == 9);
    reveal_strlit("type");
    reveal_strlit("id");
    reveal_strlit("status");
    reveal_strlit("summary");
    reveal_strlit("encrypted_content");
    assert("type"@.len() == 4 && "id"@.len() == 2 && "status"@.len() == 6 && "summary"@.len() == 7
        && "encrypted_content"@.len() == 17);
}

} // verus!
