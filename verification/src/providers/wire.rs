//! The shapes that the Chat Completions API and those made after it share.

use crate::json;
use crate::json::{json_view, list_view, no_members, Json};
use crate::schema::tools::{ToolDefinition, ToolDefinitionView};
use serde_json::Value;
use vstd::prelude::*;

verus! {

/// A tool that the caller executes.
pub open spec fn function_tool(tool: ToolDefinitionView) -> Json {
    Json::Object(
        map![
            "type"@ => Json::Text("function"@),
            "function"@ => Json::Object(map![
                "name"@ => Json::Text(tool.name),
                "description"@ => Json::Text(tool.description),
                "parameters"@ => match tool.parameters {
                    Some(parameters) => parameters,
                    None => Json::Object(no_members()),
                },
            ]),
        ],
    )
}

fn write_function_tool(tool: &ToolDefinition) -> (r: Value)
    ensures
        json_view(r) == function_tool(tool.deep_view()),
{
    let parameters = match &tool.parameters {
        Some(parameters) => parameters.clone(),
        None => json::from_object(serde_json::Map::new()),
    };
    let mut function: serde_json::Map<String, Value> = serde_json::Map::new();
    json::put(&mut function, "name", json::from_text(tool.name.as_str()));
    json::put(&mut function, "description", json::from_text(tool.description.as_str()));
    json::put(&mut function, "parameters", parameters);
    let mut item: serde_json::Map<String, Value> = serde_json::Map::new();
    json::put(&mut item, "type", json::from_text("function"));
    json::put(&mut item, "function", json::from_object(function));
    json::from_object(item)
}

/// Tools that the caller executes.
pub open spec fn function_tools(tools: Seq<ToolDefinitionView>) -> Json {
    Json::List(Seq::new(tools.len(), |i: int| function_tool(tools[i])))
}

/// Writes the tools that the caller executes.
pub fn write_function_tools(tools: &Vec<ToolDefinition>) -> (r: Value)
    ensures
        json_view(r) == function_tools(tools.deep_view()),
{
    let ghost all = Seq::new(
        tools.deep_view().len(),
        |i: int| function_tool(tools.deep_view()[i]),
    );
    let mut r: Vec<Value> = Vec::new();
    let mut i: usize = 0;
    assert(list_view(r@) =~= all.take(0));
    while i < tools.len()
        invariant
            i <= tools@.len(),
            all == Seq::new(
                tools.deep_view().len(),
                |i: int| function_tool(tools.deep_view()[i]),
            ),
            list_view(r@) == all.take(i as int),
        decreases tools@.len() - i,
    {
        assert(all[i as int] == function_tool(tools@[i as int].deep_view()));
        json::push_value(&mut r, write_function_tool(&tools[i]));
        i += 1;
        assert(list_view(r@) =~= all.take(i as int));
    }
    assert(all.take(i as int) =~= all);
    json::from_list(r)
}

/// A message of role and content alone.
pub open spec fn plain_wire_message(role: Seq<char>, content: Seq<char>) -> Json {
    Json::Object(map!["role"@ => Json::Text(role), "content"@ => Json::Text(content)])
}

/// Writes a message of role and content alone.
pub fn write_plain_message(role: &str, content: &str) -> (r: Value)
    ensures
        json_view(r) == plain_wire_message(role@, content@),
{
    let mut message: serde_json::Map<String, Value> = serde_json::Map::new();
    json::put(&mut message, "role", json::from_text(role));
    json::put(&mut message, "content", json::from_text(content));
    json::from_object(message)
}

} // verus!
