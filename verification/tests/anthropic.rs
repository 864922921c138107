//! The Anthropic provider: what it is sent and what it answers.

use priest::context_builder::Message;
use priest::providers::adapter::{AdapterCallOptions, AdapterStreamEvent};
use priest::providers::anthropic::content::{
    map_stop, parse_reasoning, read_block, read_response, write_block, AnthropicContent,
    AnthropicResponse, AnthropicUsage, REASONING_FORMAT,
};
use priest::providers::anthropic::payload::{build_payload, build_wire_turns};
use priest::providers::anthropic::settings::AnthropicProvider;
use priest::providers::anthropic::stream::{parse_stream_events, read_chunk, sse_frames};
use priest::schema::config::PriestConfig;
use priest::schema::reasoning::{
    OpaqueReasoningState, ReasoningConfig, ReasoningEffort, ReasoningInfo, ReasoningSummaryMode,
};
use priest::schema::request::OutputSpec;
use priest::schema::tools::{ToolCall, ToolChoice, ToolDefinition};
use serde_json::Value;

fn json(text: &str) -> Value {
    serde_json::from_str(text).unwrap()
}

fn blocks(text: &str) -> Vec<AnthropicContent> {
    let objects: Vec<serde_json::Map<String, Value>> = serde_json::from_str(text).unwrap();
    objects.into_iter().map(|object| read_block(object).unwrap()).collect()
}

fn count(value: &Value) -> Option<u32> {
    value.as_u64().map(|n| n as u32)
}

fn response(text: &str) -> AnthropicResponse {
    let value = json(text);
    let usage = &value["usage"];
    AnthropicResponse {
        content: blocks(&value["content"].to_string()),
        usage: usage.is_object().then(|| AnthropicUsage {
            input_tokens: count(&usage["input_tokens"]),
            output_tokens: count(&usage["output_tokens"]),
            cache_read_input_tokens: count(&usage["cache_read_input_tokens"]),
            thinking_tokens: count(&usage["output_tokens_details"]["thinking_tokens"]),
        }),
        stop_reason: value["stop_reason"].as_str().map(str::to_string),
    }
}

#[test]
fn parses_cache_read_input_tokens() {
    let resp = response(
        "{
            \"content\": [{ \"type\": \"text\", \"text\": \"ok\" }],
            \"stop_reason\": \"end_turn\",
            \"usage\": { \"input_tokens\": 1200, \"output_tokens\": 40,
                         \"cache_read_input_tokens\": 1024 }
        }",
    );
    assert_eq!(read_response(&resp).cached_input_tokens, Some(1024));

    // None when omitted.
    let resp2 = response(
        "{
            \"content\": [{ \"type\": \"text\", \"text\": \"ok\" }],
            \"stop_reason\": \"end_turn\",
            \"usage\": { \"input_tokens\": 1200, \"output_tokens\": 40 }
        }",
    );
    let result = read_response(&resp2);
    assert_eq!(result.cached_input_tokens, None);
    assert_eq!(result.text, "ok");
    assert_eq!(result.finish_reason.as_deref(), Some("stop"));
    assert_eq!((result.input_tokens, result.output_tokens), (Some(1200), Some(40)));
}

#[test]
fn maps_reasoning_and_replays_signed_state_before_tools() {
    let mut config = PriestConfig::new("anthropic", "thinking-test");
    config.reasoning = Some(ReasoningConfig {
        enabled: Some(true),
        effort: Some(ReasoningEffort::High),
        summary: Some(ReasoningSummaryMode::Auto),
    });
    let messages = vec![Message {
        role: "assistant".into(),
        content: String::new(),
        tool_calls: Some(vec![ToolCall {
            id: "call_1".into(),
            name: "lookup".into(),
            arguments: serde_json::Map::new(),
        }]),
        reasoning: Some(ReasoningInfo {
            summary: Some("Checked.".into()),
            continuation: Some(vec![OpaqueReasoningState {
                format: REASONING_FORMAT.into(),
                value: json(
                    "{\"type\":\"thinking\",\"thinking\":\"Checked.\",\"signature\":\"opaque\"}",
                ),
            }]),
        }),
        ..Default::default()
    }];
    let (payload, _) = build_payload(&messages, &config, &OutputSpec::default(), None, false);

    assert_eq!(payload["thinking"], json("{\"type\":\"adaptive\",\"display\":\"summarized\"}"));
    assert_eq!(payload["output_config"], json("{\"effort\":\"high\"}"));
    assert_eq!(payload["messages"][0]["content"][0]["type"], "thinking");
    assert_eq!(payload["messages"][0]["content"][1]["type"], "tool_use");

    let blocks = blocks(
        "[
            {\"type\":\"thinking\",\"thinking\":\"Checked.\",\"signature\":\"opaque\"},
            {\"type\":\"tool_use\",\"id\":\"call_1\",\"name\":\"lookup\",\"input\":{}}
        ]",
    );
    let reasoning = parse_reasoning(&blocks, true).unwrap();
    assert_eq!(reasoning.summary.as_deref(), Some("Checked."));
    assert_eq!(
        reasoning.continuation.unwrap()[0].value,
        json("{\"type\":\"thinking\",\"thinking\":\"Checked.\",\"signature\":\"opaque\"}")
    );
}

#[test]
fn the_payload_holds_what_was_asked_for() {
    let mut config = PriestConfig::new("anthropic", "m");
    config.provider_options.insert("max_tokens".into(), json("5"));
    config.reasoning = Some(ReasoningConfig {
        enabled: Some(false),
        effort: None,
        summary: None,
    });
    let output = OutputSpec {
        json_schema: Some(json("{\"type\":\"object\"}")),
        ..Default::default()
    };
    let options = AdapterCallOptions {
        tools: vec![ToolDefinition { name: "t".into(), description: "d".into(), parameters: None }],
        provider_tools: vec![],
        tool_choice: Some(ToolChoice::Required),
    };
    let messages = [Message::system("S."), Message::user("U.")];
    let (payload, system) = build_payload(&messages, &config, &output, Some(&options), true);
    assert_eq!(
        system.as_deref(),
        Some(
            "S.\n\nRespond with a valid JSON object that conforms to the following JSON Schema:\n\n<schema>\n{\n  \"type\": \"object\"\n}\n</schema>\n\nReturn only the JSON object \u{2014} no explanation, no markdown fences."
        )
    );
    assert_eq!(payload["system"].as_str(), system.as_deref());
    assert_eq!(payload["max_tokens"], 5);
    assert_eq!(payload["stream"], true);
    assert_eq!(payload["thinking"], json("{\"type\":\"disabled\"}"));
    assert_eq!(payload["tool_choice"], json("{\"type\":\"any\"}"));
    assert_eq!(
        payload["tools"],
        json(
            "[{\"name\":\"t\",\"description\":\"d\",\
             \"input_schema\":{\"type\":\"object\",\"properties\":{}}}]"
        )
    );
    let (plain, system) = build_payload(
        &[Message::user("U.")],
        &PriestConfig::new("anthropic", "m"),
        &OutputSpec::default(),
        None,
        false,
    );
    assert!(system.is_none());
    assert_eq!(
        plain,
        json(
            "{\"model\":\"m\",\"messages\":[{\"role\":\"user\",\"content\":\"U.\"}],\
             \"max_tokens\":8096,\"stream\":false}"
        )
    );
}

#[test]
fn tool_results_merge_into_one_user_turn() {
    let tool = |id: &str| Message {
        role: "tool".into(),
        content: format!("result of {id}"),
        tool_call_id: Some(id.into()),
        ..Default::default()
    };
    let turns = build_wire_turns(&[
        Message::system("ignored"),
        Message::user("q"),
        tool("a"),
        tool("b"),
        Message::assistant("ok"),
        tool("c"),
    ]);
    assert_eq!(turns.len(), 4);
    assert_eq!(turns[1]["role"], "user");
    assert_eq!(turns[1]["content"][0]["tool_use_id"], "a");
    assert_eq!(turns[1]["content"][1]["content"], "result of b");
    assert_eq!(turns[2], json("{\"role\":\"assistant\",\"content\":\"ok\"}"));
    assert_eq!(turns[3]["content"][0]["type"], "tool_result");
}

#[test]
fn blocks_are_read_and_written_unchanged() {
    let text = "{\"type\":\"redacted_thinking\",\"data\":\"x\",\"signature\":\"s\"}";
    let block = read_block(serde_json::from_str(text).unwrap()).unwrap();
    assert_eq!(block.kind, "redacted_thinking");
    assert_eq!(block.signature.as_deref(), Some("s"));
    assert_eq!(block.extra["data"], "x");
    assert_eq!(write_block(&block), json(text));
    assert!(read_block(serde_json::from_str("{\"text\":\"x\"}").unwrap()).is_none());
    assert!(read_block(serde_json::from_str("{\"type\":\"text\",\"text\":1}").unwrap()).is_none());
}

#[test]
fn tool_calls_and_thinking_come_out_of_a_response() {
    let result = read_response(&response(
        "{
            \"content\": [
                {\"type\":\"thinking\",\"thinking\":\"T.\",\"signature\":\"s\"},
                {\"type\":\"text\",\"text\":\"a\"},
                {\"type\":\"text\",\"text\":\"b\"},
                {\"type\":\"tool_use\",\"name\":\"f\",\"input\":{\"x\":1}},
                {\"type\":\"tool_use\",\"id\":\"z\"}
            ],
            \"stop_reason\": \"tool_use\"
        }",
    ));
    assert_eq!(result.text, "ab");
    assert_eq!(result.finish_reason.as_deref(), Some("tool_calls"));
    let calls = result.tool_calls.unwrap();
    assert_eq!(calls.len(), 1);
    assert_eq!((calls[0].id.as_str(), calls[0].name.as_str()), ("call_3", "f"));
    assert_eq!(calls[0].arguments["x"], 1);
    let reasoning = result.reasoning.unwrap();
    assert_eq!(reasoning.summary.as_deref(), Some("T."));
    assert_eq!(reasoning.continuation.unwrap().len(), 1);
}

#[test]
fn stop_reasons_are_mapped() {
    assert_eq!(map_stop(None), None);
    for (reason, mapped) in [
        ("end_turn", "stop"),
        ("stop_sequence", "stop"),
        ("max_tokens", "length"),
        ("tool_use", "tool_calls"),
        ("other", "unknown"),
    ] {
        assert_eq!(map_stop(Some(reason)).as_deref(), Some(mapped));
    }
}

#[test]
fn frames_have_a_name_and_data() {
    let frames = sse_frames(
        "event: ping\ndata: {\"a\":\r\ndata: 1}\r\n\r\ndata: oops\n\nevent: x\n\ndata: [2]\n\n",
    );
    assert_eq!(frames, vec![("ping".to_string(), json("{\"a\":1}")), (String::new(), json("[2]"))]);
}

#[test]
fn a_stream_is_read_in_order() {
    let body = [
        "event: message_start\ndata: {\"message\":{\"usage\":{\"input_tokens\":7,\"cache_read_input_tokens\":3}}}\n\n",
        "event: content_block_start\ndata: {\"index\":0,\"content_block\":{\"type\":\"thinking\",\"thinking\":\"\"}}\n\n",
        "event: content_block_delta\ndata: {\"index\":0,\"delta\":{\"type\":\"thinking_delta\",\"thinking\":\"Th\"}}\n\n",
        "event: content_block_delta\ndata: {\"index\":0,\"delta\":{\"type\":\"thinking_delta\",\"thinking\":\"ink\"}}\n\n",
        "event: content_block_delta\ndata: {\"index\":0,\"delta\":{\"type\":\"signature_delta\",\"signature\":\"sig\"}}\n\n",
        "data: {\"type\":\"content_block_delta\",\"index\":1,\"delta\":{\"type\":\"text_delta\",\"text\":\"hi\"}}\n\n",
        "event: content_block_start\ndata: {\"index\":2,\"content_block\":{\"type\":\"tool_use\",\"name\":\"f\"}}\n\n",
        "event: content_block_delta\ndata: {\"index\":2,\"delta\":{\"type\":\"input_json_delta\",\"partial_json\":\"{\\\"x\\\":\"}}\n\n",
        "event: content_block_delta\ndata: {\"index\":2,\"delta\":{\"type\":\"input_json_delta\",\"partial_json\":\"1}\"}}\n\n",
        "event: content_block_stop\ndata: {\"index\":2}\n\n",
        "event: message_delta\ndata: {\"delta\":{\"stop_reason\":\"tool_use\"},\"usage\":{\"output_tokens\":9,\"output_tokens_details\":{\"thinking_tokens\":4}}}\n\n",
    ]
    .concat();
    let events = parse_stream_events(&body);
    assert_eq!(events.len(), 9);
    assert!(matches!(&events[0], AdapterStreamEvent::ReasoningSummaryDelta { text } if text == "Th"));
    assert!(matches!(&events[2], AdapterStreamEvent::TextDelta { text } if text == "hi"));
    assert!(matches!(
        &events[3],
        AdapterStreamEvent::ToolCallStart { index: 0, id: None, name: Some(name) } if name == "f"
    ));
    assert!(matches!(&events[5], AdapterStreamEvent::ToolCallDelta { index: 0, arguments_delta } if arguments_delta == "1}"));
    assert!(matches!(
        &events[6],
        AdapterStreamEvent::ToolCallEnd { index: 0, tool_call }
            if tool_call.id == "call_0" && tool_call.name == "f" && tool_call.arguments["x"] == 1
    ));
    assert!(matches!(
        &events[7],
        AdapterStreamEvent::Usage {
            input_tokens: Some(7),
            output_tokens: Some(9),
            cached_input_tokens: Some(3),
            reasoning_tokens: Some(4),
        }
    ));
    match &events[8] {
        AdapterStreamEvent::Finish { finish_reason, reasoning: Some(reasoning) } => {
            assert_eq!(finish_reason.as_deref(), Some("tool_calls"));
            assert_eq!(reasoning.summary.as_deref(), Some("Think"));
            assert_eq!(
                reasoning.continuation.as_ref().unwrap()[0].value,
                json("{\"type\":\"thinking\",\"thinking\":\"Think\",\"signature\":\"sig\"}")
            );
        }
        _ => panic!("expected the end"),
    }
    // Line ends do not matter.
    assert_eq!(parse_stream_events(&body.replace('\n', "\r\n")).len(), 9);
    assert_eq!(parse_stream_events("").len(), 1);
}

#[test]
fn chunks_of_text_are_read() {
    let chunk = b"event: x\ndata: {\"type\":\"content_block_delta\",\"delta\":{\"text\":\"a\"}}\r\n  data: {\"type\":\"content_block_delta\",\"delta\":{\"text\":\"\"}}\ndata: {\"type\":\"ping\"}\ndata: {\n data: {\"type\":\"content_block_delta\",\"delta\":{\"text\":\"b\"}}";
    assert_eq!(read_chunk(chunk), vec!["a", "b"]);
    // What is no UTF-8 is replaced.
    let mut bytes = b"data: {\"type\":\"content_block_delta\",\"delta\":{\"text\":\"".to_vec();
    bytes.push(0xff);
    bytes.extend_from_slice(b"\"}}");
    assert_eq!(read_chunk(&bytes), vec!["\u{fffd}"]);
}

#[test]
fn the_address_follows_the_base() {
    assert_eq!(AnthropicProvider::new("k").url(), "https://api.anthropic.com/v1/messages");
    let provider = AnthropicProvider::with_base_url("k", "http://host");
    assert_eq!(provider.url(), "http://host/v1/messages");
    assert_eq!(provider.api_key, "k");
}
