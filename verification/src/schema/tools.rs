//! Tool calling types. The library transports tool definitions and calls; it never executes tools:
//! execution is the caller's responsibility.

use super::reasoning::{ReasoningInfo, ReasoningInfoView};
use crate::json;
use crate::json::{
    compact_text, is_plain, json_of_text, max_nesting, members, no_members, object_view,
    optional_view, Json,
};
use crate::text;
use crate::text::trimmed;
use serde_json::Value;
use vstd::prelude::*;

verus! {

/// A tool the model may call.
#[derive(Debug)]
pub struct ToolDefinition {
    pub name: String,
    pub description: String,
    /// JSON Schema object describing the tool's parameters.
    pub parameters: Option<Value>,
}

/// What a `ToolDefinition` holds.
pub struct ToolDefinitionView {
    pub name: Seq<char>,
    pub description: Seq<char>,
    pub parameters: Option<Json>,
}

impl DeepView for ToolDefinition {
    type V = ToolDefinitionView;

    open spec fn deep_view(&self) -> ToolDefinitionView {
        ToolDefinitionView {
            name: self.name@,
            description: self.description@,
            parameters: optional_view(self.parameters),
        }
    }
}

impl Clone for ToolDefinition {
    fn clone(&self) -> (r: Self)
        ensures
            r.deep_view() == self.deep_view(),
    {
        ToolDefinition {
            name: self.name.clone(),
            description: self.description.clone(),
            parameters: self.parameters.clone(),
        }
    }
}

/// A tool that the provider itself executes.
#[derive(Clone, Copy, Debug, PartialEq, Eq, Structural)]
pub enum ProviderToolDefinition {
    WebSearch,
}

impl DeepView for ProviderToolDefinition {
    type V = ProviderToolDefinition;

    open spec fn deep_view(&self) -> ProviderToolDefinition {
        *self
    }
}

impl ProviderToolDefinition {
    /// The tool's name on the wire.
    pub open spec fn wire_name(self) -> Seq<char> {
        match self {
            ProviderToolDefinition::WebSearch => "web_search"@,
        }
    }

    /// The tool's name on the wire.
    pub fn name(&self) -> (r: &'static str)
        ensures
            r@ == self.wire_name(),
    {
        match self {
            ProviderToolDefinition::WebSearch => "web_search",
        }
    }
}

/// Tool selection behavior. Only meaningful when tools are provided.
#[derive(Debug)]
pub enum ToolChoice {
    Auto,
    Never,
    Required,
    Tool { name: String },
}

/// What a `ToolChoice` holds.
pub enum ToolChoiceView {
    Auto,
    Never,
    Required,
    Tool { name: Seq<char> },
}

impl DeepView for ToolChoice {
    type V = ToolChoiceView;

    open spec fn deep_view(&self) -> ToolChoiceView {
        match self {
            ToolChoice::Auto => ToolChoiceView::Auto,
            ToolChoice::Never => ToolChoiceView::Never,
            ToolChoice::Required => ToolChoiceView::Required,
            ToolChoice::Tool { name } => ToolChoiceView::Tool { name: name@ },
        }
    }
}

impl Clone for ToolChoice {
    fn clone(&self) -> (r: Self)
        ensures
            r.deep_view() == self.deep_view(),
    {
        match self {
            ToolChoice::Auto => ToolChoice::Auto,
            ToolChoice::Never => ToolChoice::Never,
            ToolChoice::Required => ToolChoice::Required,
            ToolChoice::Tool { name } => ToolChoice::Tool { name: name.clone() },
        }
    }
}

/// A single tool call requested by the model. A provider that assigns no call ids gets synthesized
/// ids `call_0`, `call_1` and so on. Arguments are always a JSON object; what a provider sends
/// otherwise becomes an empty object.
#[derive(Debug)]
pub struct ToolCall {
    pub id: String,
    pub name: String,
    pub arguments: serde_json::Map<String, Value>,
}

/// What a `ToolCall` holds.
pub struct ToolCallView {
    pub id: Seq<char>,
    pub name: Seq<char>,
    pub arguments: Map<Seq<char>, Json>,
}

impl DeepView for ToolCall {
    type V = ToolCallView;

    open spec fn deep_view(&self) -> ToolCallView {
        ToolCallView { id: self.id@, name: self.name@, arguments: object_view(self.arguments) }
    }
}

impl Clone for ToolCall {
    fn clone(&self) -> (r: Self)
        ensures
            r.deep_view() == self.deep_view(),
    {
        ToolCall {
            id: self.id.clone(),
            name: self.name.clone(),
            arguments: self.arguments.clone(),
        }
    }
}

/// The id that stands in for one that a provider did not assign.
pub open spec fn synthesized_id(index: nat) -> Seq<char> {
    "call_"@ + text::decimal_text(index)
}

/// The id that stands in for one that a provider did not assign.
pub fn synthesize_id(index: usize) -> (r: String)
    ensures
        r@ == synthesized_id(index as nat),
{
    let digits = text::decimal(index as u64);
    "call_".to_owned().concat(digits.as_str())
}

/// One entry in the turn-local tool loop history. Callers replay the full exchange on each loop
/// iteration. Exchange turns are never persisted in sessions.
#[derive(Debug)]
pub enum ToolExchangeTurn {
    Assistant {
        text: Option<String>,
        tool_calls: Vec<ToolCall>,
        reasoning: Option<ReasoningInfo>,
    },
    ToolResult { tool_call_id: String, name: String, content: String, is_error: Option<bool> },
}

/// What a `ToolExchangeTurn` holds.
pub enum ToolExchangeTurnView {
    Assistant {
        text: Option<Seq<char>>,
        tool_calls: Seq<ToolCallView>,
        reasoning: Option<ReasoningInfoView>,
    },
    ToolResult {
        tool_call_id: Seq<char>,
        name: Seq<char>,
        content: Seq<char>,
        is_error: Option<bool>,
    },
}

impl DeepView for ToolExchangeTurn {
    type V = ToolExchangeTurnView;

    open spec fn deep_view(&self) -> ToolExchangeTurnView {
        match self {
            ToolExchangeTurn::Assistant {
                text,
                tool_calls,
                reasoning,
            } => ToolExchangeTurnView::Assistant {
                text: text.deep_view(),
                tool_calls: tool_calls.deep_view(),
                reasoning: reasoning.deep_view(),
            },
            ToolExchangeTurn::ToolResult {
                tool_call_id,
                name,
                content,
                is_error,
            } => ToolExchangeTurnView::ToolResult {
                tool_call_id: tool_call_id@,
                name: name@,
                content: content@,
                is_error: *is_error,
            },
        }
    }
}

impl Clone for ToolExchangeTurn {
    fn clone(&self) -> (r: Self)
        ensures
            r.deep_view() == self.deep_view(),
    {
        match self {
            ToolExchangeTurn::Assistant { text, tool_calls, reasoning } => {
                let calls = tool_calls.clone();
                assert(calls.deep_view() =~= tool_calls.deep_view());
                ToolExchangeTurn::Assistant {
                    text: text.clone(),
                    tool_calls: calls,
                    reasoning: reasoning.clone(),
                }
            },
            ToolExchangeTurn::ToolResult { tool_call_id, name, content, is_error } => {
                ToolExchangeTurn::ToolResult {
                    tool_call_id: tool_call_id.clone(),
                    name: name.clone(),
                    content: content.clone(),
                    is_error: *is_error,
                }
            },
        }
    }
}

/// The arguments that a provider's text stands for: the members of the object that it reads as. A
/// text that is blank, no JSON, or JSON but no object stands for none.
pub open spec fn arguments_in_text(raw: Seq<char>) -> Map<Seq<char>, Json> {
    match json_of_text(raw) {
        Ok(value) if trimmed(raw).len() > 0 => members(value),
        _ => Map::empty(),
    }
}

/// A text that does not read as a JSON object stands for no arguments, whatever else it is.
pub proof fn law_other_texts_are_no_arguments(raw: Seq<char>)
    requires
        !(json_of_text(raw) is Ok && json_of_text(raw)->Ok_0 is Object),
    ensures
        arguments_in_text(raw) == no_members(),
{
}

/// Writes tool arguments as a text. Read again, arguments that hold no number but integers of 64 bits
/// and are not nested too deep come back.
pub fn write_tool_arguments(arguments: &serde_json::Map<String, Value>) -> (r: String)
    ensures
        r@ == compact_text(Json::Object(object_view(*arguments))),
        is_plain(Json::Object(object_view(*arguments)), max_nesting()) ==> arguments_in_text(r@)
            == object_view(*arguments),
{
    let r = json::compact(&json::from_object(arguments.clone()));
    proof {
        text::lemma_trimmed_keeps(r@);
    }
    r
}

/// Reads tool arguments. A text that is blank, no JSON, or JSON but no object becomes an empty
/// object.
pub fn parse_tool_arguments(raw: &str) -> (r: serde_json::Map<String, Value>)
    ensures
        object_view(r) == arguments_in_text(raw@),
{
    let solid = text::trim(raw);
    if solid.as_str().is_empty() {
        return serde_json::Map::new();
    }
    match json::parse(raw) {
        Ok(value) => json::members_of(&value),
        Err(_) => serde_json::Map::new(),
    }
}

} // verus!
