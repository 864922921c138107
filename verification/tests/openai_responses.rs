//! The Responses provider: what it is sent and what it answers.

use priest::context_builder::Message;
use priest::providers::adapter::{AdapterCallOptions, AdapterStreamEvent};
use priest::providers::openai_responses::payload::{
    build_payload, openai_reasoning, responses_input,
};
use priest::providers::openai_responses::response::{
    parse_response, read_answer, response_finish, safe_reasoning_state, REASONING_FORMAT,
};
use priest::providers::openai_responses::settings::OpenAIResponsesProvider;
use priest::providers::openai_responses::stream::{
    parse_sse_events, read_streamed_answer, sse_data,
};
use priest::schema::config::PriestConfig;
use priest::schema::reasoning::{
    OpaqueReasoningState, ReasoningConfig, ReasoningEffort, ReasoningInfo, ReasoningSummaryMode,
};
use priest::schema::request::OutputSpec;
use priest::schema::tools::{
    ProviderToolDefinition, ToolCall, ToolChoice, ToolDefinition, ToolExchangeTurn,
};
use priest::PriestError;
use serde_json::Value;

fn json(text: &str) -> Value {
    serde_json::from_str(text).unwrap()
}

fn object(text: &str) -> serde_json::Map<String, Value> {
    serde_json::from_str(text).unwrap()
}

fn config() -> PriestConfig {
    PriestConfig::new("responses", "gpt-test")
}

fn lookup_tool() -> ToolDefinition {
    ToolDefinition {
        name: "lookup".into(),
        description: "Look up a label.".into(),
        parameters: Some(json("{\"type\": \"object\"}")),
    }
}

#[test]
fn builds_reasoning_schema_tools_and_protects_invariants() {
    let mut config = config();
    config.max_output_tokens = Some(200);
    config.reasoning = Some(ReasoningConfig {
        enabled: Some(true),
        effort: Some(ReasoningEffort::Medium),
        summary: Some(ReasoningSummaryMode::Auto),
    });
    config.provider_options.insert("model".into(), json("\"wrong\""));
    config.provider_options.insert("stream".into(), json("true"));
    config.provider_options.insert("store".into(), json("true"));
    let output = OutputSpec {
        json_schema: Some(json("{\"type\": \"object\"}")),
        json_schema_name: "classification".into(),
        json_schema_strict: true,
        ..Default::default()
    };
    let options = AdapterCallOptions {
        tools: vec![lookup_tool()],
        provider_tools: vec![],
        tool_choice: None,
    };
    let body =
        build_payload(&[Message::user("Classify.")], &config, &output, Some(&options), false);

    assert_eq!(body["model"], "gpt-test");
    assert_eq!(body["stream"], false);
    assert_eq!(body["store"], true);
    assert_eq!(body["reasoning"], json("{\"effort\":\"medium\",\"summary\":\"auto\"}"));
    assert_eq!(body["text"]["format"]["name"], "classification");
    assert_eq!(body["tools"][0]["type"], "function");
}

#[test]
fn replays_reasoning_before_function_call_and_result() {
    let request = ToolExchangeTurn::Assistant {
        text: None,
        tool_calls: vec![ToolCall {
            id: "call_1".into(),
            name: "lookup".into(),
            arguments: object("{\"id\":\"42\"}"),
        }],
        reasoning: Some(ReasoningInfo {
            summary: None,
            continuation: Some(vec![OpaqueReasoningState {
                format: REASONING_FORMAT.into(),
                value: json(
                    "{\"type\":\"reasoning\",\"id\":\"rs_1\",\"encrypted_content\":\"opaque\"}",
                ),
            }]),
        }),
    };
    let ToolExchangeTurn::Assistant { text, tool_calls, reasoning } = request else {
        unreachable!()
    };
    let messages = vec![
        Message {
            role: "assistant".into(),
            content: text.unwrap_or_default(),
            tool_calls: Some(tool_calls),
            reasoning,
            ..Default::default()
        },
        Message {
            role: "tool".into(),
            content: "found".into(),
            tool_call_id: Some("call_1".into()),
            ..Default::default()
        },
    ];
    let input = responses_input(&messages);
    assert_eq!(input[0]["type"], "reasoning");
    assert_eq!(input[1]["type"], "function_call");
    assert_eq!(input[2]["type"], "function_call_output");
    assert_eq!(input[1]["arguments"], "{\"id\":\"42\"}");
    assert_eq!(input[2]["output"], "found");
    assert_eq!(input[2]["call_id"], "call_1");
}

#[test]
fn parses_safe_reasoning_usage_and_rejects_raw_trace() {
    let result = parse_response(&json(
        "{
            \"status\": \"completed\",
            \"output\": [
                {
                    \"type\": \"reasoning\",
                    \"id\": \"rs_1\",
                    \"summary\": [{\"type\":\"summary_text\",\"text\":\"Checked two options.\"}],
                    \"encrypted_content\": \"opaque\"
                },
                {\"type\":\"function_call\",\"call_id\":\"call_1\",\"name\":\"lookup\",
                 \"arguments\":\"{\\\"id\\\":\\\"42\\\"}\"}
            ],
            \"usage\": {
                \"input_tokens\": 100,
                \"input_tokens_details\": {\"cached_tokens\":80},
                \"output_tokens\":25,
                \"output_tokens_details\":{\"reasoning_tokens\":20}
            }
        }",
    ))
    .unwrap();
    assert_eq!(result.finish_reason.as_deref(), Some("tool_calls"));
    assert_eq!(
        result.reasoning.as_ref().and_then(|value| value.summary.as_deref()),
        Some("Checked two options.")
    );
    assert_eq!(result.reasoning_tokens, Some(20));
    assert_eq!(result.cached_input_tokens, Some(80));
    assert_eq!(result.input_tokens, Some(100));
    assert_eq!(result.output_tokens, Some(25));
    assert_eq!(result.tool_calls.unwrap()[0].arguments["id"], "42");

    let raw = parse_response(&json(
        "{
            \"status\":\"completed\",
            \"output\":[
                {\"type\":\"reasoning\",\"id\":\"rs_raw\",
                 \"content\":[{\"type\":\"reasoning_text\",\"text\":\"private\"}]},
                {\"type\":\"function_call\",\"call_id\":\"call_1\",\"name\":\"lookup\",
                 \"arguments\":\"{}\"}
            ]
        }",
    ))
    .unwrap();
    assert!(raw.reasoning.is_none());
}

#[test]
fn parses_crlf_semantic_stream_without_duplicate_tool_end() {
    let body = [
        "data: {\"type\":\"response.reasoning_summary_text.delta\",\"delta\":\"Checking\"}\r\n\r\n",
        "data: {\"type\":\"response.output_item.added\",\"output_index\":1,\"item\":{\"type\":\"function_call\",\"call_id\":\"call_1\",\"name\":\"lookup\",\"arguments\":\"\"}}\r\n\r\n",
        "data: {\"type\":\"response.function_call_arguments.delta\",\"output_index\":1,\"delta\":\"{\\\"id\\\":\\\"42\\\"}\"}\r\n\r\n",
        "data: {\"type\":\"response.function_call_arguments.done\",\"output_index\":1,\"arguments\":\"{\\\"id\\\":\\\"42\\\"}\",\"name\":\"lookup\"}\r\n\r\n",
        "data: {\"type\":\"response.completed\",\"response\":{\"status\":\"completed\",\"output\":[{\"type\":\"function_call\",\"call_id\":\"call_1\",\"name\":\"lookup\",\"arguments\":\"{\\\"id\\\":\\\"42\\\"}\"}],\"usage\":{\"input_tokens\":10,\"output_tokens\":5}}}\r\n\r\n",
    ]
    .concat();
    let events = parse_sse_events(&body).unwrap();
    assert!(events.iter().any(|event| matches!(
        event,
        AdapterStreamEvent::ReasoningSummaryDelta { text } if text == "Checking"
    )));
    assert_eq!(
        events
            .iter()
            .filter(|event| matches!(event, AdapterStreamEvent::ToolCallEnd { .. }))
            .count(),
        1
    );
    assert!(matches!(
        events.last(),
        Some(AdapterStreamEvent::Finish { finish_reason: Some(reason), .. }) if reason == "tool_calls"
    ));
}

#[test]
fn the_payload_is_exact() {
    let mut config = config();
    config.max_output_tokens = Some(9);
    let options = AdapterCallOptions {
        tools: vec![lookup_tool()],
        provider_tools: vec![ProviderToolDefinition::WebSearch],
        tool_choice: Some(ToolChoice::Tool { name: "lookup".into() }),
    };
    let messages = [Message::system("S."), Message::user("U."), Message::assistant("A.")];
    let body = build_payload(&messages, &config, &OutputSpec::default(), Some(&options), true);
    assert_eq!(body["stream"], true);
    assert_eq!(body["max_output_tokens"], 9);
    assert_eq!(body["tool_choice"], json("{\"type\":\"function\",\"name\":\"lookup\"}"));
    assert_eq!(
        body["tools"],
        json(
            "[{\"type\":\"web_search\"},{\"type\":\"function\",\"name\":\"lookup\",\
             \"description\":\"Look up a label.\",\"parameters\":{\"type\":\"object\"}}]"
        )
    );
    assert_eq!(body["input"][0]["content"][0]["type"], "input_text");
    assert_eq!(body["input"][2]["content"][0]["type"], "output_text");
    assert_eq!(body["input"][2]["content"][0]["text"], "A.");
}

#[test]
fn reasoning_is_asked_for_as_configured() {
    let mut config = config();
    assert!(openai_reasoning(&config).is_none());
    config.reasoning = Some(ReasoningConfig {
        enabled: Some(false),
        effort: None,
        summary: Some(ReasoningSummaryMode::Off),
    });
    assert_eq!(openai_reasoning(&config).unwrap(), json("{\"effort\":\"none\"}"));
    config.reasoning = Some(ReasoningConfig {
        enabled: Some(false),
        effort: Some(ReasoningEffort::High),
        summary: Some(ReasoningSummaryMode::Auto),
    });
    assert_eq!(
        openai_reasoning(&config).unwrap(),
        json("{\"effort\":\"high\",\"summary\":\"auto\"}")
    );
    config.reasoning = Some(ReasoningConfig { enabled: Some(true), effort: None, summary: None });
    assert!(openai_reasoning(&config).is_none());
}

#[test]
fn statuses_decide_how_an_answer_finishes() {
    assert_eq!(response_finish(&json("{\"status\":\"completed\"}"), false), "stop");
    assert_eq!(response_finish(&json("{\"status\":\"completed\"}"), true), "tool_calls");
    assert_eq!(
        response_finish(
            &json(
                "{\"status\":\"incomplete\",\"incomplete_details\":{\"reason\":\"max_output_tokens\"}}"
            ),
            false
        ),
        "length"
    );
    assert_eq!(
        response_finish(
            &json(
                "{\"status\":\"incomplete\",\"incomplete_details\":{\"reason\":\"content_filter\"}}"
            ),
            false
        ),
        "content_filter"
    );
}

#[test]
fn only_what_is_opaque_is_kept_for_later() {
    let kept = safe_reasoning_state(&json(
        "{\"type\":\"reasoning\",\"id\":\"r\",\"encrypted_content\":\"e\",\"content\":[],\
         \"status\":null,\"summary\":[],\"other\":1}",
    ))
    .unwrap();
    assert_eq!(kept.format, REASONING_FORMAT);
    assert_eq!(
        kept.value,
        json(
            "{\"type\":\"reasoning\",\"id\":\"r\",\"summary\":[],\"encrypted_content\":\"e\"}"
        )
    );
    assert!(safe_reasoning_state(&json(
        "{\"type\":\"reasoning\",\"id\":\"r\",\"encrypted_content\":\"e\",\
         \"content\":[{\"type\":\"reasoning_text\",\"text\":\"private\"}]}"
    ))
    .is_none());
    assert!(safe_reasoning_state(&json("{\"type\":\"reasoning\",\"summary\":[]}")).is_none());
}

#[test]
fn answers_are_read_or_refused() {
    let ok = read_answer(
        200,
        "200 OK",
        "{\"status\":\"completed\",\"output\":[{\"type\":\"message\",\"content\":\
         [{\"type\":\"output_text\",\"text\":\"hi\"}]}]}",
    )
    .unwrap();
    assert_eq!(ok.text, "hi");
    assert_eq!(ok.finish_reason.as_deref(), Some("stop"));
    assert!(matches!(
        read_answer(500, "500 Internal Server Error", "oops"),
        Err(PriestError::ProviderError { provider, message })
            if provider == "openai-responses" && message == "HTTP 500 Internal Server Error: oops"
    ));
    assert!(matches!(
        read_answer(200, "200 OK", "{"),
        Err(PriestError::ProviderError { message, .. })
            if message == serde_json::from_str::<Value>("{").unwrap_err().to_string()
    ));
    assert!(matches!(
        read_answer(
            200,
            "200 OK",
            "{\"status\":\"failed\",\"error\":{\"code\":\"c\",\"message\":\"m\"}}"
        ),
        Err(PriestError::ProviderError { .. })
    ));
}

#[test]
fn streams_without_an_end_finish_by_themselves() {
    let events = parse_sse_events(
        "data: {\"type\":\"response.output_text.delta\",\"delta\":\"hi\"}\n\ndata: not json\n\ndata: [DONE]\n\ndata: {\"type\":\"error\",\"message\":\"late\"}\n\n",
    )
    .unwrap();
    assert_eq!(events.len(), 2);
    assert!(matches!(&events[0], AdapterStreamEvent::TextDelta { text } if text == "hi"));
    assert!(matches!(
        &events[1],
        AdapterStreamEvent::Finish { finish_reason: Some(reason), reasoning: None } if reason == "stop"
    ));
}

#[test]
fn a_call_left_open_is_closed_at_the_end() {
    let events = parse_sse_events(
        "data: {\"type\":\"response.output_item.added\",\"output_index\":0,\"item\":{\"type\":\"function_call\",\"call_id\":\"c\",\"name\":\"f\"}}\n\ndata: {\"type\":\"response.function_call_arguments.delta\",\"output_index\":0,\"delta\":\"{\\\"a\\\":1}\"}\n\n",
    )
    .unwrap();
    assert_eq!(events.len(), 4);
    assert!(matches!(
        &events[2],
        AdapterStreamEvent::ToolCallEnd { index: 0, tool_call }
            if tool_call.id == "c" && tool_call.arguments["a"] == 1
    ));
    assert!(matches!(
        &events[3],
        AdapterStreamEvent::Finish { finish_reason: Some(reason), .. } if reason == "tool_calls"
    ));
}

#[test]
fn a_completed_call_is_emitted_once_in_whatever_way_it_comes() {
    let events = parse_sse_events(
        "data: {\"type\":\"response.completed\",\"response\":{\"status\":\"completed\",\"output\":[{\"type\":\"function_call\",\"call_id\":\"c\",\"name\":\"f\",\"arguments\":\"{}\"},{\"type\":\"function_call\",\"call_id\":\"c\",\"name\":\"f\",\"arguments\":\"{}\"}]}}\n\n",
    )
    .unwrap();
    let ends = events
        .iter()
        .filter(|event| matches!(event, AdapterStreamEvent::ToolCallEnd { .. }))
        .count();
    assert_eq!(ends, 1);
}

#[test]
fn errors_in_a_stream_end_it() {
    assert!(matches!(
        parse_sse_events("data: {\"type\":\"error\",\"message\":\"m\"}\n\n"),
        Err(PriestError::ProviderError { message, .. }) if message == "m"
    ));
    assert!(matches!(
        parse_sse_events("data: {\"type\":\"error\",\"code\":1}\n\n"),
        Err(PriestError::ProviderError { message, .. }) if message == "{\"code\":1,\"type\":\"error\"}"
    ));
    assert!(parse_sse_events("data: {\"type\":\"response.failed\",\"response\":{}}\n\n").is_err());
    assert!(read_streamed_answer(503, "503 Service Unavailable", "").is_err());
    assert_eq!(read_streamed_answer(200, "200 OK", "").unwrap().len(), 1);
}

#[test]
fn data_lines_of_a_frame_belong_together() {
    assert_eq!(
        sse_data("event: x\ndata: a\ndata:b\n\nid: 1\n\ndata:  c\n"),
        vec!["a\nb".to_string(), "c".to_string()]
    );
    // Line ends do not matter.
    let unix = "data: a\ndata: b\n\ndata: c\n\n";
    assert_eq!(sse_data(unix), sse_data(&unix.replace('\n', "\r\n")));
}

#[test]
fn the_address_is_exact_or_built() {
    let provider = OpenAIResponsesProvider::new("k");
    assert_eq!(provider.url(), "https://api.openai.com/v1/responses");
    assert_eq!(provider.api_key.as_deref(), Some("k"));
    let provider = provider.with_base_url("http://host//");
    assert_eq!(provider.url(), "http://host/v1/responses");
    let provider = provider.with_exact_url("http://else/");
    assert_eq!(provider.url(), "http://else/");
    let provider = provider.with_headers(vec![("a".into(), "b".into())]);
    assert_eq!(provider.headers, vec![("a".to_string(), "b".to_string())]);
    assert!(OpenAIResponsesProvider::without_api_key().api_key.is_none());
    assert!(OpenAIResponsesProvider::default().api_key.is_none());
    assert!(provider.supports_provider_tool(&ProviderToolDefinition::WebSearch, &config()));
}
