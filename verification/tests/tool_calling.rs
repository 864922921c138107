//! Tool calling and the tool loop.

use priest::context_builder::build_messages;
use priest::profile::default_profile::built_in_default;
use priest::schema::config::PriestConfig;
use priest::schema::reasoning::ReasoningInfo;
use priest::schema::request::PriestRequest;
use priest::schema::response::{ExecutionInfo, PriestErrorModel, PriestResponse};
use priest::schema::tools::{
    parse_tool_arguments, write_tool_arguments, ToolCall, ToolDefinition, ToolExchangeTurn,
};
use priest::tool_loop::{
    ApprovalDecision, LoopAction, LoopEvent, ToolExecutionResult, ToolLoop, ToolLoopResult,
};
use priest::PriestError;
use serde_json::Value;

fn json(text: &str) -> Value {
    serde_json::from_str(text).unwrap()
}

fn config() -> PriestConfig {
    PriestConfig::new("mock", "test-model")
}

fn read_file_call() -> ToolCall {
    let mut arguments = serde_json::Map::new();
    arguments.insert("path".into(), json("\"a.txt\""));
    ToolCall { id: "call_0".into(), name: "read_file".into(), arguments }
}

fn read_file_tool() -> ToolDefinition {
    ToolDefinition {
        name: "read_file".into(),
        description: "Read a file".into(),
        parameters: None,
    }
}

fn request() -> PriestRequest {
    let mut req = PriestRequest::new(config(), "Read a.txt");
    req.tools = vec![read_file_tool()];
    req
}

fn response(text: &str, tool_calls: Option<Vec<ToolCall>>) -> PriestResponse {
    PriestResponse {
        text: Some(text.into()),
        tool_calls,
        reasoning: None,
        execution: ExecutionInfo {
            provider: "mock".into(),
            model: "test-model".into(),
            profile: "default".into(),
            latency_ms: None,
            finished_reason: None,
        },
        usage: None,
        session: None,
        error: None,
        metadata: Default::default(),
    }
}

/// What a tool loop did: its outcome, the requests that were run and the calls that were executed.
struct Trace {
    outcome: Result<ToolLoopResult, PriestError>,
    runs: Vec<PriestRequest>,
    executed: Vec<String>,
}

fn run_with_tools(
    request: PriestRequest,
    max_iterations: Option<usize>,
    mut responses: Vec<Result<PriestResponse, PriestError>>,
    decide: impl Fn(&ToolCall) -> ApprovalDecision,
    is_error: bool,
) -> Trace {
    let (mut state, mut action) = ToolLoop::start(request, max_iterations);
    let mut runs = vec![];
    let mut executed = vec![];
    loop {
        let event = match action {
            LoopAction::Run { request } => {
                runs.push(request);
                LoopEvent::Ran(responses.remove(0))
            }
            LoopAction::Approve { call } => LoopEvent::Decided(decide(&call)),
            LoopAction::Execute { call } => {
                executed.push(call.id);
                LoopEvent::Executed(ToolExecutionResult { content: "hello".into(), is_error })
            }
            LoopAction::Return(outcome) => return Trace { outcome, runs, executed },
        };
        let next = state.step(event);
        state = next.0;
        action = next.1;
    }
}

fn approve(_call: &ToolCall) -> ApprovalDecision {
    ApprovalDecision { approved: true, reason: None }
}

#[test]
fn tool_exchange_replayed_after_user_message() {
    let mut req = request();
    req.tool_exchange = vec![
        ToolExchangeTurn::Assistant {
            text: Some(String::new()),
            tool_calls: vec![read_file_call()],
            reasoning: None,
        },
        ToolExchangeTurn::ToolResult {
            tool_call_id: "call_0".into(),
            name: "read_file".into(),
            content: "file body".into(),
            is_error: None,
        },
    ];
    let messages = build_messages(&req, &built_in_default(), None);

    let n = messages.len();
    assert_eq!(messages[n - 3].role, "user");
    assert_eq!(messages[n - 2].role, "assistant");
    assert!(messages[n - 2].tool_calls.is_some());
    assert_eq!(messages[n - 1].role, "tool");
    assert_eq!(messages[n - 1].tool_call_id.as_deref(), Some("call_0"));
    assert_eq!(messages[n - 1].content, "file body");
}

#[test]
fn run_with_tools_executes_and_returns_final_response() {
    let trace = run_with_tools(
        request(),
        None,
        vec![
            Ok(response("", Some(vec![read_file_call()]))),
            Ok(response("The file says hello.", None)),
        ],
        approve,
        false,
    );
    let result = trace.outcome.unwrap();
    assert_eq!(trace.executed.len(), 1);
    assert_eq!(result.response.text.as_deref(), Some("The file says hello."));
    assert!(!result.iteration_limit_reached);
    assert!(matches!(result.exchange[0], ToolExchangeTurn::Assistant { .. }));
    assert!(matches!(
        &result.exchange[1],
        ToolExchangeTurn::ToolResult { content, is_error: None, .. } if content == "hello"
    ));
    // The second run replays the exchange.
    let messages = build_messages(&trace.runs[1], &built_in_default(), None);
    assert!(messages.iter().any(|m| m.role == "tool"));
    assert!(trace.runs[0].tool_exchange.is_empty());
}

#[test]
fn run_with_tools_denial_injects_error_result() {
    let trace = run_with_tools(
        request(),
        None,
        vec![
            Ok(response("", Some(vec![read_file_call()]))),
            Ok(response("Understood.", None)),
        ],
        |_call| ApprovalDecision { approved: false, reason: Some("not allowed".into()) },
        false,
    );
    assert!(trace.executed.is_empty());
    let result = trace.outcome.unwrap();
    let ToolExchangeTurn::ToolResult { content, is_error, .. } = &result.exchange[1] else {
        panic!("expected tool result turn");
    };
    assert_eq!(*is_error, Some(true));
    assert!(content.contains("not allowed"));
    assert_eq!(content, "Tool call denied by the caller: not allowed");
}

#[test]
fn a_denial_without_reason_says_so_plainly() {
    let trace = run_with_tools(
        request(),
        None,
        vec![
            Ok(response("", Some(vec![read_file_call()]))),
            Ok(response("Understood.", None)),
        ],
        |_call| ApprovalDecision { approved: false, reason: None },
        false,
    );
    let result = trace.outcome.unwrap();
    assert!(matches!(
        &result.exchange[1],
        ToolExchangeTurn::ToolResult { content, .. } if content == "Tool call denied by the caller."
    ));
}

#[test]
fn run_with_tools_iteration_cap() {
    let again = || Ok(response("", Some(vec![read_file_call()])));
    let trace =
        run_with_tools(request(), Some(3), vec![again(), again(), again(), again()], approve, false);
    let result = trace.outcome.unwrap();
    assert!(result.iteration_limit_reached);
    assert_eq!(trace.runs.len(), 3);
    assert_eq!(result.exchange.len(), 6);
}

#[test]
fn the_cap_is_at_least_one_and_ten_by_default() {
    let again = || Ok(response("", Some(vec![read_file_call()])));
    let trace = run_with_tools(request(), Some(0), vec![again(), again()], approve, false);
    assert_eq!(trace.runs.len(), 1);
    assert!(trace.outcome.unwrap().iteration_limit_reached);
    let trace = run_with_tools(request(), None, (0..11).map(|_| again()).collect(), approve, false);
    assert_eq!(trace.runs.len(), 10);
}

#[test]
fn tool_loop_copies_reasoning_into_assistant_exchange() {
    let mut first = response("", Some(vec![read_file_call()]));
    first.reasoning = Some(ReasoningInfo {
        summary: Some("Checked the constraints.".into()),
        continuation: None,
    });
    let trace =
        run_with_tools(request(), None, vec![Ok(first), Ok(response("done", None))], approve, false);
    let result = trace.outcome.unwrap();
    let ToolExchangeTurn::Assistant { reasoning: exchange_reasoning, .. } = &result.exchange[0] else {
        panic!("expected assistant exchange");
    };
    assert_eq!(
        exchange_reasoning.as_ref().and_then(|info| info.summary.as_deref()),
        Some("Checked the constraints.")
    );
    assert_eq!(
        build_messages(&trace.runs[1], &built_in_default(), None)
            .iter()
            .find(|message| message.role == "assistant")
            .and_then(|message| message.reasoning.as_ref())
            .and_then(|info| info.summary.as_deref()),
        Some("Checked the constraints.")
    );
}

#[test]
fn every_call_is_answered_in_order_and_errors_are_marked() {
    let mut second = read_file_call();
    second.id = "call_1".into();
    let mut req = request();
    req.tool_exchange = vec![ToolExchangeTurn::ToolResult {
        tool_call_id: "earlier".into(),
        name: "x".into(),
        content: "y".into(),
        is_error: None,
    }];
    let trace = run_with_tools(
        req,
        None,
        vec![
            Ok(response("", Some(vec![read_file_call(), second]))),
            Ok(response("done", None)),
        ],
        approve,
        true,
    );
    assert_eq!(trace.executed, vec!["call_0", "call_1"]);
    let exchange = trace.outcome.unwrap().exchange;
    let ids: Vec<String> = exchange
        .iter()
        .map(|turn| match turn {
            ToolExchangeTurn::Assistant { .. } => "assistant".to_string(),
            ToolExchangeTurn::ToolResult { tool_call_id, is_error, .. } => {
                format!("{tool_call_id} {}", is_error.unwrap_or(false))
            }
        })
        .collect();
    assert_eq!(ids, vec!["earlier false", "assistant", "call_0 true", "call_1 true"]);
}

#[test]
fn a_response_with_an_error_ends_the_loop() {
    let mut failed = response("", Some(vec![read_file_call()]));
    failed.error = Some(PriestErrorModel {
        code: "PROVIDER_ERROR".into(),
        message: "boom".into(),
        details: vec![],
    });
    let trace = run_with_tools(request(), None, vec![Ok(failed)], approve, false);
    let result = trace.outcome.unwrap();
    assert!(!result.iteration_limit_reached);
    assert!(result.exchange.is_empty());
}

#[test]
fn an_error_of_a_run_escapes_and_an_event_out_of_turn_is_refused() {
    let trace = run_with_tools(
        request(),
        None,
        vec![Err(PriestError::ProviderNotRegistered { provider: "mock".into() })],
        approve,
        false,
    );
    assert!(matches!(trace.outcome, Err(PriestError::ProviderNotRegistered { .. })));
    let (state, _) = ToolLoop::start(request(), None);
    let (_, action) = state.step(LoopEvent::Decided(ApprovalDecision { approved: true, reason: None }));
    assert!(matches!(action, LoopAction::Return(Err(PriestError::InternalError { .. }))));
}

#[test]
fn written_tool_arguments_come_back() {
    let arguments = parse_tool_arguments("{\"b\": [-1, {\"c\": null}], \"a\": \" x \"}");
    let text = write_tool_arguments(&arguments);
    assert_eq!(text, "{\"a\":\" x \",\"b\":[-1,{\"c\":null}]}");
    assert_eq!(parse_tool_arguments(&text), arguments);
    assert_eq!(write_tool_arguments(&serde_json::Map::new()), "{}");
}

#[test]
fn tool_arguments_are_an_object_or_nothing() {
    assert_eq!(parse_tool_arguments("{\"a\": 1}")["a"], json("1"));
    assert!(parse_tool_arguments("  \n").is_empty());
    assert!(parse_tool_arguments("{\"a\": ").is_empty());
    assert!(parse_tool_arguments("[1, 2]").is_empty());
}
