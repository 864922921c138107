//! Errors, requests, responses and their defaults.

use priest::engine::event::{collect_events, collect_texts, cut_at_error, sum_events};
use priest::profile::default_profile::built_in_default;
use priest::providers::adapter::{
    check_status, check_stream_status, text_finished, text_of, transport_error, wrap_text,
    AdapterStreamEvent,
};
use priest::schema::config::{default_timeout, Decimal, PriestConfig};
use priest::schema::reasoning::ReasoningEffort;
use priest::schema::request::{
    bool_true, default_json_schema_name, default_media_type, default_profile, OutputSpec,
    PriestRequest, SessionRef,
};
use priest::schema::response::{PriestErrorModel, UsageInfo};
use priest::schema::tools::{synthesize_id, ProviderToolDefinition};
use priest::PriestError;

fn decimal(text: &str) -> Decimal {
    Decimal { text: text.into() }
}

#[test]
fn every_error_has_its_code_message_and_details() {
    let cases: Vec<(PriestError, &str, &str, Vec<(&str, &str)>)> = vec![
        (
            PriestError::ProfileNotFound { profile: "p".into() },
            "PROFILE_NOT_FOUND",
            "profile not found: p",
            vec![("profile", "p")],
        ),
        (
            PriestError::ProfileInvalid { profile: "p".into(), reason: "r".into() },
            "PROFILE_INVALID",
            "profile invalid: p \u{2014} r",
            vec![("profile", "p")],
        ),
        (
            PriestError::SessionNotFound { session_id: "s".into() },
            "SESSION_NOT_FOUND",
            "session not found: s",
            vec![("session_id", "s")],
        ),
        (
            PriestError::SessionStoreError { message: "m".into() },
            "SESSION_STORE_ERROR",
            "session store error: m",
            vec![],
        ),
        (
            PriestError::ProviderNotRegistered { provider: "x".into() },
            "PROVIDER_NOT_REGISTERED",
            "provider not registered: x",
            vec![("provider", "x")],
        ),
        (
            PriestError::ProviderTimeout { provider: "x".into(), timeout: decimal("2.5") },
            "PROVIDER_TIMEOUT",
            "provider timeout: x after 2.5s",
            vec![("provider", "x"), ("timeout", "2.5")],
        ),
        (
            PriestError::ProviderError { provider: "x".into(), message: "m".into() },
            "PROVIDER_ERROR",
            "provider error: x \u{2014} m",
            vec![("provider", "x")],
        ),
        (
            PriestError::ProviderRateLimited { provider: "x".into(), retry_after: None },
            "PROVIDER_RATE_LIMITED",
            "provider rate limited: x",
            vec![("provider", "x")],
        ),
        (
            PriestError::ProviderRateLimited {
                provider: "x".into(),
                retry_after: Some(decimal("30")),
            },
            "PROVIDER_RATE_LIMITED",
            "provider rate limited: x",
            vec![("provider", "x"), ("retry_after", "30")],
        ),
        (
            PriestError::RequestInvalid { message: "m".into() },
            "REQUEST_INVALID",
            "request invalid: m",
            vec![],
        ),
        (
            PriestError::InternalError { message: "m".into() },
            "INTERNAL_ERROR",
            "internal error: m",
            vec![],
        ),
    ];
    for (error, code, message, details) in cases {
        let details: Vec<(String, String)> =
            details.into_iter().map(|(k, v)| (k.to_string(), v.to_string())).collect();
        assert_eq!(error.code(), code);
        assert_eq!(error.message(), message);
        assert_eq!(error.details(), details);
        let model = PriestErrorModel::from_priest_error(&error);
        assert_eq!((model.code.as_str(), model.message.as_str()), (code, message));
        assert_eq!(model.details, details);
    }
    let aborted = PriestError::RequestAborted { message: "m".into() };
    assert_eq!(aborted.code(), "REQUEST_ABORTED");
    let image = PriestError::ImageLoadError { message: "m".into() };
    assert_eq!(image.code(), "IMAGE_LOAD_ERROR");
}

#[test]
fn usage_adds_up() {
    let usage = UsageInfo::new(Some(10), Some(5), Some(4), Some(2));
    assert_eq!(usage.total_tokens, Some(15));
    assert_eq!(usage.cached_input_tokens, Some(4));
    assert_eq!(usage.reasoning_tokens, Some(2));
    assert!(usage.estimated_cost_usd.is_none());
    assert_eq!(UsageInfo::new(Some(10), None, None, None).total_tokens, None);
    assert_eq!(UsageInfo::new(None, Some(5), None, None).total_tokens, None);
}

#[test]
fn defaults_are_as_documented() {
    assert_eq!(default_timeout().text, "60");
    assert_eq!(default_profile(), "default");
    assert_eq!(default_json_schema_name(), "response");
    assert_eq!(default_media_type(), "image/jpeg");
    assert!(bool_true());
    let config = PriestConfig::new("p", "m");
    assert_eq!((config.provider.as_str(), config.model.as_str()), ("p", "m"));
    assert_eq!(config.timeout_seconds.text, "60");
    assert!(config.max_context_tokens.is_none() && config.provider_options.is_empty());
    let request = PriestRequest::new(config, "hi");
    assert_eq!((request.profile.as_str(), request.prompt.as_str()), ("default", "hi"));
    assert!(request.session.is_none() && request.tools.is_empty() && request.metadata.is_empty());
    let session = SessionRef::new("s");
    assert!(session.continue_existing && session.create_if_missing);
    let output = OutputSpec::default();
    assert_eq!(output.json_schema_name, "response");
    assert!(!output.json_schema_strict && output.json_schema.is_none());
    assert_eq!(priest::SPEC_VERSION, "2.8.1");
    assert_eq!(built_in_default().name, "default");
}

#[test]
fn names_are_as_they_go_over_the_wire() {
    let names: Vec<&str> = [
        ReasoningEffort::Off,
        ReasoningEffort::Minimal,
        ReasoningEffort::Low,
        ReasoningEffort::Medium,
        ReasoningEffort::High,
        ReasoningEffort::XHigh,
        ReasoningEffort::Max,
    ]
    .into_iter()
    .map(|effort| effort.as_str())
    .collect();
    assert_eq!(names, vec!["none", "minimal", "low", "medium", "high", "xhigh", "max"]);
    assert_eq!(ProviderToolDefinition::WebSearch.name(), "web_search");
    assert_eq!(synthesize_id(0), "call_0");
    assert_eq!(synthesize_id(120), "call_120");
}

#[test]
fn statuses_are_judged() {
    assert!(check_status("x", 200, "200 OK", None).is_ok());
    assert!(check_status("x", 299, "299", None).is_ok());
    assert!(matches!(
        check_status("x", 429, "429 Too Many Requests", Some(decimal("3"))),
        Err(PriestError::ProviderRateLimited { provider, retry_after: Some(wait) })
            if provider == "x" && wait.text == "3"
    ));
    assert!(matches!(
        check_status("x", 500, "500 Internal Server Error", None),
        Err(PriestError::ProviderError { message, .. })
            if message == "HTTP 500 Internal Server Error"
    ));
    assert!(check_status("x", 300, "300 Multiple Choices", None).is_err());
    // A stream does not tell a limit from another failure.
    assert!(matches!(
        check_stream_status("x", 429, "429 Too Many Requests"),
        Err(PriestError::ProviderError { message, .. }) if message == "HTTP 429 Too Many Requests"
    ));
    assert!(check_stream_status("x", 204, "204 No Content").is_ok());
}

#[test]
fn transport_failures_are_timeouts_or_errors() {
    assert!(matches!(
        transport_error("x", true, "m", &decimal("60")),
        PriestError::ProviderTimeout { timeout, .. } if timeout.text == "60"
    ));
    assert!(matches!(
        transport_error("x", false, "m", &decimal("60")),
        PriestError::ProviderError { message, .. } if message == "m"
    ));
}

#[test]
fn wrapped_text_unwraps() {
    match text_of(wrap_text(Ok("a".into()))) {
        Some(Ok(text)) => assert_eq!(text, "a"),
        _ => panic!("expected the text"),
    }
    assert!(text_of(Ok(text_finished())).is_none());
    let error = PriestError::InternalError { message: "m".into() };
    assert!(matches!(text_of(wrap_text(Err(error))), Some(Err(PriestError::InternalError { .. }))));
}

#[test]
fn streams_are_cut_at_their_first_error() {
    let boom = || PriestError::InternalError { message: "boom".into() };
    let stream = collect_texts(vec![Ok("a".into()), Err(boom()), Ok("b".into())]);
    assert_eq!(stream.chunks, vec!["a"]);
    assert!(stream.error.is_some());
    let stream = collect_events(vec![Ok(text_finished())]);
    assert_eq!(stream.events.len(), 1);
    assert!(stream.error.is_none());
    let items = cut_at_error(vec![Ok("x".to_string()), Err(boom()), Ok("y".into())]);
    assert_eq!((items.0, items.1.is_some()), (vec!["x".to_string()], true));
}

#[test]
fn events_are_summed() {
    let summed = sum_events(vec![
        AdapterStreamEvent::TextDelta { text: "a".into() },
        AdapterStreamEvent::TextDelta { text: "b".into() },
        AdapterStreamEvent::Usage {
            input_tokens: Some(1),
            output_tokens: Some(2),
            cached_input_tokens: None,
            reasoning_tokens: None,
        },
        AdapterStreamEvent::Finish { finish_reason: Some("length".into()), reasoning: None },
    ]);
    assert_eq!(summed.forwarded.len(), 3);
    assert!(summed.tool_calls.is_empty());
    assert_eq!(summed.finish_reason.as_deref(), Some("length"));
}
