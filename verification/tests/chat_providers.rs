//! The Ollama and the OpenAI-compatible provider: what they are sent and what they answer.

use priest::context_builder::Message;
use priest::providers::adapter::AdapterCallOptions;
use priest::providers::{ollama, openai_compat};
use priest::schema::config::PriestConfig;
use priest::schema::reasoning::{ReasoningConfig, ReasoningEffort};
use priest::schema::request::OutputSpec;
use priest::schema::tools::{ToolCall, ToolChoice, ToolDefinition};
use priest::PriestError;
use serde_json::Value;

fn json(text: &str) -> Value {
    serde_json::from_str(text).unwrap()
}

fn list(text: &str) -> Vec<Value> {
    serde_json::from_str(text).unwrap()
}

fn effort(effort: ReasoningEffort) -> Option<ReasoningConfig> {
    Some(ReasoningConfig { enabled: None, effort: Some(effort), summary: None })
}

fn exchange() -> Vec<Message> {
    vec![
        Message::user("q"),
        Message {
            role: "assistant".into(),
            tool_calls: Some(vec![ToolCall {
                id: "c1".into(),
                name: "f".into(),
                arguments: serde_json::from_str("{\"b\":1,\"a\":[2]}").unwrap(),
            }]),
            ..Default::default()
        },
        Message {
            role: "tool".into(),
            content: "r".into(),
            tool_call_id: Some("c1".into()),
            name: Some("f".into()),
            ..Default::default()
        },
    ]
}

fn options(tool_choice: Option<ToolChoice>) -> AdapterCallOptions {
    AdapterCallOptions {
        tools: vec![ToolDefinition { name: "f".into(), description: "d".into(), parameters: None }],
        provider_tools: vec![],
        tool_choice,
    }
}

// ---- Ollama ----

#[test]
fn neutral_reasoning_maps_and_provider_options_override() {
    let mut config = PriestConfig::new("ollama", "qwen");
    config.reasoning = effort(ReasoningEffort::High);
    let payload = ollama::build_payload(
        &[Message::user("Hi")],
        &config,
        &OutputSpec::default(),
        None,
        false,
    )
    .unwrap();
    assert_eq!(payload["think"], "high");
    config.provider_options.insert("think".into(), json("false"));
    let payload = ollama::build_payload(
        &[Message::user("Hi")],
        &config,
        &OutputSpec::default(),
        None,
        false,
    )
    .unwrap();
    assert_eq!(payload["think"], false);
}

#[test]
fn rejects_undefined_effort() {
    let mut config = PriestConfig::new("ollama", "qwen");
    config.reasoning = effort(ReasoningEffort::XHigh);
    let error = ollama::build_payload(
        &[Message::user("Hi")],
        &config,
        &OutputSpec::default(),
        None,
        false,
    )
    .unwrap_err();
    assert_eq!(error.code(), "REQUEST_INVALID");
    assert_eq!(
        error.message(),
        "request invalid: Ollama does not define the reasoning effort 'xhigh'"
    );
}

#[test]
fn ollama_thinking_is_switched() {
    let think = |reasoning: ReasoningConfig| {
        let mut config = PriestConfig::new("ollama", "qwen");
        config.reasoning = Some(reasoning);
        ollama::build_payload(&[], &config, &OutputSpec::default(), None, false)
            .map(|payload| payload.get("think").cloned())
    };
    let none = || ReasoningConfig { enabled: None, effort: None, summary: None };
    assert_eq!(think(none()).unwrap(), None);
    assert_eq!(
        think(ReasoningConfig { enabled: Some(true), ..none() }).unwrap(),
        Some(json("true"))
    );
    let off = ReasoningConfig {
        enabled: Some(false),
        effort: Some(ReasoningEffort::Minimal),
        ..none()
    };
    assert_eq!(think(off).unwrap(), Some(json("false")));
    let off = ReasoningConfig { effort: Some(ReasoningEffort::Off), ..none() };
    assert_eq!(think(off).unwrap(), Some(json("false")));
    assert!(think(ReasoningConfig { effort: Some(ReasoningEffort::Minimal), ..none() }).is_err());
}

#[test]
fn the_ollama_payload_is_exact() {
    let mut config = PriestConfig::new("ollama", "m");
    config.max_output_tokens = Some(9);
    let output = OutputSpec { provider_format: Some("json".into()), ..Default::default() };
    let payload = ollama::build_payload(
        &exchange(),
        &config,
        &output,
        Some(&options(Some(ToolChoice::Required))),
        true,
    )
    .unwrap();
    assert_eq!(
        payload,
        json(
            "{\"model\":\"m\",\"stream\":true,\"format\":\"json\",\"options\":{\"num_predict\":9},
              \"messages\":[{\"role\":\"user\",\"content\":\"q\"},
                {\"role\":\"assistant\",\"content\":\"\",\"tool_calls\":
                    [{\"function\":{\"name\":\"f\",\"arguments\":{\"b\":1,\"a\":[2]}}}]},
                {\"role\":\"tool\",\"content\":\"r\",\"tool_name\":\"f\"}],
              \"tools\":[{\"type\":\"function\",\"function\":
                {\"name\":\"f\",\"description\":\"d\",\"parameters\":{}}}]}"
        )
    );
    let output = OutputSpec {
        provider_format: Some("json".into()),
        json_schema: Some(json("{\"s\":1}")),
        ..Default::default()
    };
    let payload = ollama::build_payload(&[], &config, &output, None, false).unwrap();
    assert_eq!(payload["format"], json("{\"s\":1}"));
}

#[test]
fn ollama_answers_are_read() {
    let result = ollama::read_response(&ollama::OllamaResponse {
        content: "hi".into(),
        tool_calls: Some(list(
            "[{\"function\":{\"name\":\"f\",\"arguments\":{\"x\":1}}},
              {\"function\":{\"arguments\":{}}},
              {\"function\":{\"name\":\"g\",\"arguments\":\"text\"}}]",
        )),
        prompt_eval_count: Some(3),
        eval_count: Some(4),
        done_reason: Some("stop".into()),
    });
    assert_eq!(result.text, "hi");
    assert_eq!(result.finish_reason.as_deref(), Some("tool_calls"));
    assert_eq!((result.input_tokens, result.output_tokens), (Some(3), Some(4)));
    let calls = result.tool_calls.unwrap();
    assert_eq!((calls[0].id.as_str(), calls[1].id.as_str()), ("call_0", "call_1"));
    assert_eq!(calls[0].arguments["x"], 1);
    assert!(calls[1].arguments.is_empty());
    // An entry without a function makes nothing of the whole list.
    let broken = list("[{\"function\":{\"name\":\"f\"}},{}]");
    assert!(ollama::parse_wire_tool_calls(Some(&broken)).is_none());
    assert!(ollama::parse_wire_tool_calls(None).is_none());
    for (reason, mapped) in [("stop", "stop"), ("load", "stop"), ("length", "length"), ("x", "unknown")] {
        assert_eq!(ollama::map_done_reason(Some(reason)).as_deref(), Some(mapped));
    }
    assert!(ollama::map_done_reason(None).is_none());
}

#[test]
fn ollama_chunks_are_read() {
    assert_eq!(
        ollama::read_chunk(b" {\"message\":{\"content\":\"hi\"},\"done\":false}\n").as_deref(),
        Some("hi")
    );
    assert!(ollama::read_chunk(b"{\"message\":{\"content\":\"hi\"},\"done\":true}").is_none());
    assert!(ollama::read_chunk(b"{\"message\":{\"content\":\"\"}}").is_none());
    assert!(ollama::read_chunk(b"  ").is_none());
    assert!(ollama::read_chunk(b"{").is_none());
    // What is no UTF-8 is no chunk.
    let mut bytes = b"{\"message\":{\"content\":\"hi".to_vec();
    bytes.push(0xff);
    bytes.extend_from_slice(b"\"}}");
    assert!(ollama::read_chunk(&bytes).is_none());
}

#[test]
fn the_ollama_address_follows_the_base() {
    assert_eq!(ollama::OllamaProvider::default().url(), "http://localhost:11434/api/chat");
    assert_eq!(ollama::OllamaProvider::new("http://host").url(), "http://host/api/chat");
}

// ---- OpenAI-compatible ----

#[test]
fn the_compatible_payload_is_exact() {
    let mut config = PriestConfig::new("openai", "m");
    config.max_output_tokens = Some(9);
    let output = OutputSpec {
        json_schema: Some(json("{\"s\":1}")),
        json_schema_strict: true,
        ..Default::default()
    };
    let payload = openai_compat::build_payload(
        &exchange(),
        &config,
        &output,
        Some(&options(Some(ToolChoice::Tool { name: "f".into() }))),
        true,
    );
    assert_eq!(
        payload,
        json(
            "{\"model\":\"m\",\"stream\":true,\"stream_options\":{\"include_usage\":true},
              \"max_tokens\":9,
              \"response_format\":{\"type\":\"json_schema\",\"json_schema\":
                {\"name\":\"response\",\"schema\":{\"s\":1},\"strict\":true}},
              \"messages\":[{\"role\":\"user\",\"content\":\"q\"},
                {\"role\":\"assistant\",\"content\":null,\"tool_calls\":
                    [{\"id\":\"c1\",\"type\":\"function\",\"function\":
                        {\"name\":\"f\",\"arguments\":\"{\\\"a\\\":[2],\\\"b\\\":1}\"}}]},
                {\"role\":\"tool\",\"tool_call_id\":\"c1\",\"content\":\"r\"}],
              \"tools\":[{\"type\":\"function\",\"function\":
                {\"name\":\"f\",\"description\":\"d\",\"parameters\":{}}}],
              \"tool_choice\":{\"type\":\"function\",\"function\":{\"name\":\"f\"}}}"
        )
    );
    config.provider_options.insert("max_tokens".into(), json("1"));
    let output = OutputSpec { provider_format: Some("json".into()), ..Default::default() };
    let payload = openai_compat::build_payload(&[], &config, &output, None, false);
    assert_eq!(payload["max_tokens"], 1);
    assert!(payload.get("stream").is_none());
    assert_eq!(payload["response_format"], json("{\"type\":\"json_object\"}"));
    let both = OutputSpec { json_schema: Some(json("{}")), ..output };
    let payload = openai_compat::build_payload(&[], &config, &both, None, false);
    assert_eq!(payload["response_format"]["type"], "json_schema");
    let payload = openai_compat::build_payload(&[], &config, &OutputSpec::default(), None, false);
    assert!(payload.get("response_format").is_none());
    for (choice, name) in [
        (ToolChoice::Auto, "auto"),
        (ToolChoice::Never, "none"),
        (ToolChoice::Required, "required"),
    ] {
        let payload = openai_compat::build_payload(
            &[],
            &config,
            &OutputSpec::default(),
            Some(&options(Some(choice))),
            false,
        );
        assert_eq!(payload["tool_choice"], name);
    }
}

#[test]
fn compatible_answers_are_read() {
    let data = openai_compat::OAIResponse {
        choices: vec![openai_compat::OAIChoice {
            content: None,
            tool_calls: Some(list(
                "[{\"id\":\"c\",\"function\":{\"name\":\"f\",\"arguments\":\"{\\\"x\\\":1}\"}},
                  {\"function\":{}},
                  {\"function\":{\"name\":\"g\",\"arguments\":\"oops\"}}]",
            )),
            finish_reason: Some("stop".into()),
        }],
        usage: Some(openai_compat::OAIUsage {
            prompt_tokens: Some(3),
            completion_tokens: Some(4),
            cached_tokens: Some(2),
        }),
    };
    let result = openai_compat::read_response("openai", &data).unwrap();
    assert_eq!(result.text, "");
    assert_eq!(result.finish_reason.as_deref(), Some("tool_calls"));
    assert_eq!(result.cached_input_tokens, Some(2));
    let calls = result.tool_calls.unwrap();
    assert_eq!((calls[0].id.as_str(), calls[1].id.as_str()), ("c", "call_2"));
    assert_eq!(calls[0].arguments["x"], 1);
    assert!(calls[1].arguments.is_empty());
    let empty = openai_compat::OAIResponse { choices: vec![], usage: None };
    assert!(matches!(
        openai_compat::read_response("openai", &empty),
        Err(PriestError::ProviderError { provider, message })
            if provider == "openai" && message == "empty choices"
    ));
    for reason in ["stop", "length", "content_filter", "tool_calls"] {
        assert_eq!(openai_compat::map_finish(Some(reason)).as_deref(), Some(reason));
    }
    assert_eq!(openai_compat::map_finish(Some("x")).as_deref(), Some("unknown"));
    assert!(openai_compat::map_finish(None).is_none());
}

#[test]
fn compatible_chunks_are_read_up_to_the_end_mark() {
    let chunk = b"data: {\"choices\":[{\"delta\":{\"content\":\"a\"}}]}\n\ndata: {\"choices\":[]}\ndata: {\"choices\":[{\"delta\":{\"content\":\"\"}}]}\n data: {\"choices\":[{\"delta\":{\"content\":\"b\"}}]}\ndata: [DONE]\ndata: {\"choices\":[{\"delta\":{\"content\":\"late\"}}]}\n";
    assert_eq!(openai_compat::read_chunk(chunk), vec!["a", "b"]);
}

#[test]
fn the_compatible_address_follows_the_base() {
    let provider = openai_compat::OpenAICompatProvider::new("http://host", "k");
    assert_eq!(provider.url(), "http://host/v1/chat/completions");
    assert_eq!(provider.api_key, "k");
}
