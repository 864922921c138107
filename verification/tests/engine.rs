//! Requests from their beginning to their response.

use priest::context_builder::Message;
use priest::engine::event::{collect_events, collect_texts, PriestStreamEvent};
use priest::engine::run::{EngineAction, EngineEvent, EngineMode, EngineReply, EngineRun};
use priest::profile::default_profile::built_in_default;
use priest::profile::model::Profile;
use priest::providers::adapter::{text_finished, wrap_text, AdapterResult, AdapterStreamEvent};
use priest::schema::config::PriestConfig;
use priest::schema::reasoning::{OpaqueReasoningState, ReasoningInfo};
use priest::schema::request::{PriestRequest, SessionRef};
use priest::schema::response::PriestResponse;
use priest::schema::tools::{ProviderToolDefinition, ToolCall, ToolDefinition, ToolExchangeTurn};
use priest::session::in_memory::InMemorySessionStore;
use priest::session::model::Session;
use priest::PriestError;
use serde_json::Value;

fn json(text: &str) -> Value {
    serde_json::from_str(text).unwrap()
}

fn config() -> PriestConfig {
    PriestConfig::new("mock", "m")
}

fn request(prompt: &str) -> PriestRequest {
    PriestRequest::new(config(), prompt)
}

fn load(name: &str) -> Result<Profile, PriestError> {
    if name == "default" {
        Ok(built_in_default())
    } else {
        Err(PriestError::ProfileNotFound { profile: name.to_string() })
    }
}

fn answer(text: &str) -> AdapterResult {
    AdapterResult {
        text: text.into(),
        finish_reason: Some("stop".into()),
        input_tokens: Some(10),
        output_tokens: Some(5),
        cached_input_tokens: None,
        reasoning_tokens: None,
        tool_calls: None,
        reasoning: None,
    }
}

fn boom() -> PriestError {
    PriestError::ProviderError { provider: "mock".into(), message: "boom".into() }
}

/// What a provider does when it is called.
enum Script {
    Answer(AdapterResult),
    Fail(PriestError),
    Texts(Vec<Result<String, PriestError>>),
    Events(Vec<Result<AdapterStreamEvent, PriestError>>),
}

/// Runs a request in the given mode. A store that is broken fails to save.
fn drive(
    mode: EngineMode,
    request: PriestRequest,
    script: Script,
    mut store: Option<&mut InMemorySessionStore>,
    broken: bool,
) -> Result<EngineReply, PriestError> {
    let supported: Vec<bool> = request.provider_tools.iter().map(|_| true).collect();
    let (mut run, mut action) = EngineRun::start(mode, request, true, &supported, store.is_some());
    let mut script = Some(script);
    loop {
        let event = match action {
            EngineAction::LoadProfile { name } => EngineEvent::ProfileLoaded(load(&name)),
            EngineAction::GetSession { id } => {
                EngineEvent::SessionFound(Ok(store.as_ref().unwrap().get(&id)))
            }
            EngineAction::CreateSession { profile_name, wanted_id } => EngineEvent::SessionCreated(Ok(
                store.as_mut().unwrap().create(&profile_name, wanted_id.as_deref()),
            )),
            EngineAction::Summarize { .. } => EngineEvent::Summarized(Ok(answer("SUMMARY"))),
            EngineAction::SaveSession { session } => {
                if broken {
                    EngineEvent::Saved(Err(PriestError::SessionStoreError { message: "full".into() }))
                } else {
                    store.as_mut().unwrap().save(&session);
                    EngineEvent::Saved(Ok(()))
                }
            }
            EngineAction::Call { .. } => match (mode, script.take().unwrap()) {
                (EngineMode::Run, Script::Answer(result)) => {
                    EngineEvent::Completed { result: Ok(result), latency_ms: 7 }
                }
                (EngineMode::Run, Script::Fail(e)) => {
                    EngineEvent::Completed { result: Err(e), latency_ms: 7 }
                }
                (EngineMode::Stream, Script::Texts(items)) => {
                    EngineEvent::TextStreamed { texts: Ok(collect_texts(items)) }
                }
                (EngineMode::Stream, Script::Fail(e)) => EngineEvent::TextStreamed { texts: Err(e) },
                (EngineMode::StreamEvents, Script::Events(items)) => {
                    EngineEvent::EventsStreamed { events: Ok(collect_events(items)), latency_ms: 7 }
                }
                (EngineMode::StreamEvents, Script::Fail(e)) => {
                    EngineEvent::EventsStreamed { events: Err(e), latency_ms: 7 }
                }
                _ => panic!("the script does not fit the mode"),
            },
            EngineAction::Return(outcome) => return outcome,
        };
        let next = run.step(event);
        run = next.0;
        action = next.1;
    }
}

fn run(
    request: PriestRequest,
    script: Script,
    store: Option<&mut InMemorySessionStore>,
) -> Result<PriestResponse, PriestError> {
    match drive(EngineMode::Run, request, script, store, false)? {
        EngineReply::Response(response) => Ok(response),
        _ => panic!("expected a response"),
    }
}

fn stream_events(
    request: PriestRequest,
    script: Script,
    store: Option<&mut InMemorySessionStore>,
) -> (Vec<PriestStreamEvent>, PriestResponse) {
    match drive(EngineMode::StreamEvents, request, script, store, false).unwrap() {
        EngineReply::Events(mut events) => match events.pop().unwrap() {
            PriestStreamEvent::Done { response } => (events, response),
            _ => panic!("expected the response last"),
        },
        _ => panic!("expected events"),
    }
}

// ---- Basic run ----

#[test]
fn run_returns_response_text() {
    let resp = run(request("hi"), Script::Answer(answer("hello world")), None).unwrap();
    assert!(resp.ok());
    assert_eq!(resp.text.unwrap(), "hello world");
}

#[test]
fn run_returns_execution_info() {
    let resp = run(request("hi"), Script::Answer(answer("ok")), None).unwrap();
    assert_eq!(resp.execution.provider, "mock");
    assert_eq!(resp.execution.model, "m");
    assert_eq!(resp.execution.profile, "default");
    assert_eq!(resp.execution.finished_reason.as_deref(), Some("stop"));
    assert_eq!(resp.execution.latency_ms, Some(7));
}

#[test]
fn run_returns_usage_info() {
    let resp = run(request("hi"), Script::Answer(answer("ok")), None).unwrap();
    let usage = resp.usage.unwrap();
    assert_eq!(usage.input_tokens, Some(10));
    assert_eq!(usage.output_tokens, Some(5));
    assert_eq!(usage.total_tokens, Some(15));
}

// ---- What goes to the provider ----

#[test]
fn the_call_carries_messages_and_options() {
    let mut req = request("hi");
    req.tools = vec![ToolDefinition {
        name: "lookup".into(),
        description: "Look up.".into(),
        parameters: None,
    }];
    let (run, action) = EngineRun::start(EngineMode::Run, req, true, &vec![], false);
    match action {
        EngineAction::LoadProfile { name } => assert_eq!(name, "default"),
        _ => panic!("expected the profile first"),
    }
    let (_, action) = run.step(EngineEvent::ProfileLoaded(load("default")));
    match action {
        EngineAction::Call { messages, options } => {
            let roles: Vec<&str> = messages.iter().map(|m: &Message| m.role.as_str()).collect();
            assert_eq!(roles, vec!["system", "user"]);
            assert_eq!(options.unwrap().tools[0].name, "lookup");
        }
        _ => panic!("expected the call"),
    }
}

#[test]
fn a_request_without_tools_has_no_options() {
    let (run, _) = EngineRun::start(EngineMode::Run, request("hi"), true, &vec![], false);
    let (_, action) = run.step(EngineEvent::ProfileLoaded(load("default")));
    assert!(matches!(action, EngineAction::Call { options: None, .. }));
}

// ---- Provider not registered, tools not supported ----

#[test]
fn run_errors_when_provider_not_registered() {
    let (_, action) = EngineRun::start(EngineMode::Run, request("hi"), false, &vec![], false);
    assert!(matches!(
        action,
        EngineAction::Return(Err(PriestError::ProviderNotRegistered { .. }))
    ));
}

#[test]
fn unsupported_provider_tools_are_refused() {
    let wants_search = || {
        let mut req = request("hi");
        req.provider_tools = vec![ProviderToolDefinition::WebSearch];
        req
    };
    let (_, action) =
        EngineRun::start(EngineMode::Run, wants_search(), true, &vec![false], false);
    match action {
        EngineAction::Return(Ok(EngineReply::Response(response))) => {
            let error = response.error.unwrap();
            assert_eq!(error.code, "PROVIDER_ERROR");
            assert!(error.message.contains("web_search"));
            assert_eq!(response.execution.finished_reason.as_deref(), Some("error"));
        }
        _ => panic!("expected a response"),
    }
    // What nothing is said of is not supported.
    let (_, action) = EngineRun::start(EngineMode::Stream, wants_search(), true, &vec![], false);
    assert!(matches!(action, EngineAction::Return(Err(PriestError::ProviderError { .. }))));
    let (_, action) =
        EngineRun::start(EngineMode::StreamEvents, wants_search(), true, &vec![false], false);
    match action {
        EngineAction::Return(Ok(EngineReply::Events(events))) => {
            assert_eq!(events.len(), 1);
            assert!(matches!(&events[0], PriestStreamEvent::Done { response } if !response.ok()));
        }
        _ => panic!("expected events"),
    }
    let (_, action) = EngineRun::start(EngineMode::Run, wants_search(), true, &vec![true], false);
    assert!(matches!(action, EngineAction::LoadProfile { .. }));
}

// ---- Errors ----

#[test]
fn provider_error_captured_in_response() {
    let resp = run(request("hi"), Script::Fail(boom()), None).unwrap();
    assert!(!resp.ok());
    assert_eq!(resp.execution.finished_reason.as_deref(), Some("error"));
    let error = resp.error.unwrap();
    assert_eq!(error.code, "PROVIDER_ERROR");
    assert_eq!(error.message, "provider error: mock \u{2014} boom");
    assert_eq!(error.details, vec![("provider".to_string(), "mock".to_string())]);
}

#[test]
fn profile_errors_escape() {
    let mut req = request("hi");
    req.profile = "missing".into();
    let result = run(req, Script::Answer(answer("ok")), None);
    assert!(matches!(result, Err(PriestError::ProfileNotFound { .. })));
}

#[test]
fn an_event_out_of_turn_is_an_internal_error() {
    let (run, _) = EngineRun::start(EngineMode::Run, request("hi"), true, &vec![], false);
    let (_, action) = run.step(EngineEvent::Saved(Ok(())));
    assert!(matches!(
        action,
        EngineAction::Return(Err(PriestError::InternalError { .. }))
    ));
}

// ---- Metadata ----

#[test]
fn metadata_echoed_in_response() {
    let mut req = request("hi");
    req.metadata.insert("key".into(), json("\"value\""));
    let resp = run(req, Script::Answer(answer("ok")), None).unwrap();
    assert_eq!(resp.metadata["key"], json("\"value\""));
}

// ---- Sessions ----

#[test]
fn run_creates_session_on_first_call() {
    let mut store = InMemorySessionStore::new();
    let mut req = request("hi");
    req.session = Some(SessionRef::new("s1"));
    let resp = run(req, Script::Answer(answer("resp")), Some(&mut store)).unwrap();

    let sess_info = resp.session.unwrap();
    assert!(sess_info.is_new);
    assert_eq!(sess_info.id, "s1");
    assert_eq!(sess_info.turn_count, 2); // user and assistant
}

#[test]
fn run_continues_session_on_second_call() {
    let mut store = InMemorySessionStore::new();
    let mut req = request("first");
    req.session = Some(SessionRef::new("s2"));
    run(req, Script::Answer(answer("resp")), Some(&mut store)).unwrap();

    let mut req2 = request("second");
    req2.session = Some(SessionRef::new("s2"));
    let resp2 = run(req2, Script::Answer(answer("resp2")), Some(&mut store)).unwrap();
    let sess_info = resp2.session.unwrap();
    assert!(!sess_info.is_new);
    assert_eq!(sess_info.turn_count, 4); // two of the first call and two of the second
    let contents: Vec<String> =
        store.get("s2").unwrap().turns.into_iter().map(|t| t.content).collect();
    assert_eq!(contents, vec!["first", "resp", "second", "resp2"]);
}

#[test]
fn a_session_that_is_not_continued_is_made_anew() {
    let mut store = InMemorySessionStore::new();
    store.create("default", Some("s1"));
    let mut req = request("hi");
    req.session = Some(SessionRef {
        id: "s1".into(),
        continue_existing: false,
        create_if_missing: true,
    });
    let info = run(req, Script::Answer(answer("r")), Some(&mut store)).unwrap().session.unwrap();
    assert!(info.is_new);
    assert_eq!(info.id.len(), 36);
}

#[test]
fn session_not_found_errors_when_create_if_missing_false() {
    let mut store = InMemorySessionStore::new();
    let mut req = request("hi");
    req.session = Some(SessionRef {
        id: "ghost".into(),
        continue_existing: true,
        create_if_missing: false,
    });
    let result = run(req, Script::Answer(answer("resp")), Some(&mut store));
    assert!(matches!(result, Err(PriestError::SessionNotFound { .. })));
}

#[test]
fn no_session_info_in_response_when_no_session_store() {
    let mut req = request("hi");
    req.session = Some(SessionRef::new("s1"));
    let resp = run(req, Script::Answer(answer("ok")), None).unwrap();
    assert!(resp.session.is_none());
}

#[test]
fn a_failed_call_leaves_the_session_alone() {
    let mut store = InMemorySessionStore::new();
    let mut req = request("hi");
    req.session = Some(SessionRef::new("s1"));
    let resp = run(req, Script::Fail(boom()), Some(&mut store)).unwrap();
    assert!(resp.session.is_none());
    assert!(store.get("s1").unwrap().turns.is_empty());
}

#[test]
fn a_store_that_fails_is_an_error_only_for_a_plain_run() {
    let with_session = || {
        let mut req = request("hi");
        req.session = Some(SessionRef::new("s1"));
        req
    };
    let mut store = InMemorySessionStore::new();
    let outcome = drive(
        EngineMode::Run,
        with_session(),
        Script::Answer(answer("r")),
        Some(&mut store),
        true,
    );
    assert!(matches!(outcome, Err(PriestError::SessionStoreError { .. })));
    let outcome = drive(
        EngineMode::Stream,
        with_session(),
        Script::Texts(vec![Ok("r".into())]),
        Some(&mut store),
        true,
    );
    assert!(matches!(outcome, Ok(EngineReply::Texts(_))));
    let outcome = drive(
        EngineMode::StreamEvents,
        with_session(),
        Script::Events(vec![wrap_text(Ok("r".into())), Ok(text_finished())]),
        Some(&mut store),
        true,
    );
    assert!(matches!(outcome, Ok(EngineReply::Events(_))));
}

// ---- Tool calls ----

fn read_file_call() -> ToolCall {
    let mut arguments = serde_json::Map::new();
    arguments.insert("path".into(), json("\"a.txt\""));
    ToolCall { id: "call_0".into(), name: "read_file".into(), arguments }
}

fn tool_request() -> PriestRequest {
    let mut req = request("Read a.txt");
    req.tools = vec![ToolDefinition {
        name: "read_file".into(),
        description: "Read a file".into(),
        parameters: None,
    }];
    req
}

fn calling(calls: Vec<ToolCall>) -> AdapterResult {
    let mut result = answer("");
    result.finish_reason = Some("tool_calls".into());
    result.tool_calls = Some(calls);
    result
}

#[test]
fn tool_calls_surface_with_finished_reason() {
    let (run, _) = EngineRun::start(EngineMode::Run, tool_request(), true, &vec![], false);
    let (run, action) = run.step(EngineEvent::ProfileLoaded(load("default")));
    match action {
        EngineAction::Call { options, .. } => {
            assert_eq!(options.unwrap().tools[0].name, "read_file");
        }
        _ => panic!("expected the call"),
    }
    let called = EngineEvent::Completed {
        result: Ok(calling(vec![read_file_call()])),
        latency_ms: 7,
    };
    let (_, action) = run.step(called);
    let EngineAction::Return(Ok(EngineReply::Response(response))) = action else {
        panic!("expected a response");
    };
    assert!(response.ok());
    assert_eq!(response.tool_calls.as_ref().unwrap()[0].name, "read_file");
    assert_eq!(response.execution.finished_reason.as_deref(), Some("tool_calls"));
}

#[test]
fn an_empty_list_of_tool_calls_is_none() {
    let response = run(tool_request(), Script::Answer(calling(vec![])), None).unwrap();
    assert!(response.tool_calls.is_none());
}

#[test]
fn session_not_persisted_while_tool_calls_pending() {
    let mut store = InMemorySessionStore::new();
    let mut req = tool_request();
    req.session = Some(SessionRef {
        id: "s1".into(),
        continue_existing: true,
        create_if_missing: true,
    });
    let first = run(
        req.clone(),
        Script::Answer(calling(vec![read_file_call()])),
        Some(&mut store),
    )
    .unwrap();
    assert!(first.tool_calls.is_some());
    assert!(store.get("s1").unwrap().turns.is_empty());

    req.tool_exchange = vec![
        ToolExchangeTurn::Assistant {
            text: None,
            tool_calls: first.tool_calls.unwrap(),
            reasoning: None,
        },
        ToolExchangeTurn::ToolResult {
            tool_call_id: "call_0".into(),
            name: "read_file".into(),
            content: "hello".into(),
            is_error: None,
        },
    ];
    let second =
        run(req, Script::Answer(answer("The file says hello.")), Some(&mut store)).unwrap();
    assert_eq!(second.text.as_deref(), Some("The file says hello."));

    let session = store.get("s1").unwrap();
    assert_eq!(session.turns.len(), 2);
    assert_eq!(session.turns[0].role, "user");
    assert_eq!(session.turns[0].content, "Read a.txt");
}

// ---- Streams of text ----

#[test]
fn stream_yields_all_chunks() {
    let texts = vec![Ok("hello ".into()), Ok("world".into()), Ok(" foo".into())];
    match drive(EngineMode::Stream, request("hi"), Script::Texts(texts), None, false).unwrap() {
        EngineReply::Texts(chunks) => assert_eq!(chunks.join(""), "hello world foo"),
        _ => panic!("expected texts"),
    }
}

#[test]
fn stream_saves_session_after_completion() {
    let mut store = InMemorySessionStore::new();
    let mut req = request("my prompt");
    req.session = Some(SessionRef::new("sess1"));
    let texts = vec![Ok("response ".into()), Ok("text".into())];
    drive(EngineMode::Stream, req, Script::Texts(texts), Some(&mut store), false).unwrap();

    // The session is saved with two turns, user and assistant.
    let sess = store.get("sess1").expect("session should be saved");
    assert_eq!(sess.turns.len(), 2);
    assert_eq!(sess.turns[0].role, "user");
    assert_eq!(sess.turns[0].content, "my prompt");
    assert_eq!(sess.turns[1].role, "assistant");
    assert_eq!(sess.turns[1].content, "response text");
}

#[test]
fn a_broken_stream_hands_on_nothing_but_the_error() {
    let mut store = InMemorySessionStore::new();
    let mut req = request("hi");
    req.session = Some(SessionRef::new("s"));
    let texts = vec![Ok("lost".into()), Err(boom()), Ok("too late".into())];
    let reply = drive(EngineMode::Stream, req, Script::Texts(texts), Some(&mut store), false);
    assert!(matches!(reply, Ok(EngineReply::Broken(PriestError::ProviderError { .. }))));
    assert!(store.get("s").unwrap().turns.is_empty());
    let reply = drive(EngineMode::Stream, request("hi"), Script::Fail(boom()), None, false);
    assert!(matches!(reply, Err(PriestError::ProviderError { .. })));
}

// ---- Streams of events ----

fn reasoning() -> ReasoningInfo {
    ReasoningInfo {
        summary: Some("Checked the constraints.".into()),
        continuation: Some(vec![OpaqueReasoningState {
            format: "test.reasoning.v1".into(),
            value: json("{\"opaque\": true}"),
        }]),
    }
}

#[test]
fn engine_surfaces_reasoning_usage_and_content_filter() {
    let mut result = answer("answer");
    result.finish_reason = Some("content_filter".into());
    result.output_tokens = Some(8);
    result.cached_input_tokens = Some(4);
    result.reasoning_tokens = Some(6);
    result.reasoning = Some(reasoning());
    let response = run(request("Hi"), Script::Answer(result), None).unwrap();

    assert_eq!(response.execution.finished_reason.as_deref(), Some("content_filter"));
    assert_eq!(
        response.reasoning.as_ref().and_then(|info| info.summary.as_deref()),
        Some("Checked the constraints.")
    );
    let usage = response.usage.unwrap();
    assert_eq!(usage.reasoning_tokens, Some(6));
    assert_eq!(usage.cached_input_tokens, Some(4));
    assert_eq!(usage.total_tokens, Some(18));
}

#[test]
fn engine_forwards_reasoning_summary_stream_events() {
    let (events, response) = stream_events(
        request("Hi"),
        Script::Events(vec![
            Ok(AdapterStreamEvent::ReasoningSummaryDelta { text: "Checked".into() }),
            Ok(AdapterStreamEvent::TextDelta { text: "answer".into() }),
            Ok(AdapterStreamEvent::Usage {
                input_tokens: Some(10),
                output_tokens: Some(8),
                cached_input_tokens: Some(4),
                reasoning_tokens: Some(6),
            }),
            Ok(AdapterStreamEvent::Finish {
                finish_reason: Some("stop".into()),
                reasoning: Some(reasoning()),
            }),
        ]),
        None,
    );
    assert!(matches!(
        &events[0],
        PriestStreamEvent::ReasoningSummaryDelta { text } if text == "Checked"
    ));
    assert_eq!(events.len(), 3);
    assert_eq!(
        response.reasoning.as_ref().and_then(|info| info.summary.as_deref()),
        Some("Checked the constraints.")
    );
    assert_eq!(response.text.as_deref(), Some("answer"));
    assert_eq!(response.usage.as_ref().unwrap().total_tokens, Some(18));
}

#[test]
fn streamed_tool_calls_are_collected_and_not_persisted() {
    let mut store = InMemorySessionStore::new();
    let mut req = tool_request();
    req.session = Some(SessionRef::new("s"));
    let (events, response) = stream_events(
        req,
        Script::Events(vec![
            Ok(AdapterStreamEvent::TextDelta { text: "Let me see.".into() }),
            Ok(AdapterStreamEvent::ToolCallStart {
                index: 0,
                id: Some("call_0".into()),
                name: Some("read_file".into()),
            }),
            Ok(AdapterStreamEvent::ToolCallDelta { index: 0, arguments_delta: "{}".into() }),
            Ok(AdapterStreamEvent::ToolCallEnd { index: 0, tool_call: read_file_call() }),
            Ok(AdapterStreamEvent::Finish { finish_reason: Some("stop".into()), reasoning: None }),
        ]),
        Some(&mut store),
    );
    assert_eq!(events.len(), 4);
    assert_eq!(response.tool_calls.unwrap()[0].id, "call_0");
    assert_eq!(response.execution.finished_reason.as_deref(), Some("tool_calls"));
    assert_eq!(response.session.unwrap().turn_count, 0);
    assert!(store.get("s").unwrap().turns.is_empty());
}

#[test]
fn a_failure_in_a_stream_of_events_is_answered() {
    let mut store = InMemorySessionStore::new();
    let mut req = request("hi");
    req.session = Some(SessionRef::new("s"));
    let (events, response) = stream_events(
        req,
        Script::Events(vec![
            Ok(AdapterStreamEvent::TextDelta { text: "so far".into() }),
            Err(boom()),
        ]),
        Some(&mut store),
    );
    assert_eq!(events.len(), 1);
    assert_eq!(response.text.as_deref(), Some("so far"));
    assert_eq!(response.execution.finished_reason.as_deref(), Some("error"));
    assert_eq!(response.error.unwrap().code, "PROVIDER_ERROR");
    assert!(response.session.is_none());
    assert!(store.get("s").unwrap().turns.is_empty());

    let (events, response) = stream_events(request("hi"), Script::Fail(boom()), None);
    assert!(events.is_empty());
    assert!(!response.ok());
    assert!(response.text.is_none());
}

#[test]
fn a_stream_of_events_saves_its_text() {
    let mut store = InMemorySessionStore::new();
    let mut req = request("hi");
    req.session = Some(SessionRef::new("s"));
    let (_, response) = stream_events(
        req,
        Script::Events(vec![
            wrap_text(Ok("a".into())),
            wrap_text(Ok("b".into())),
            Ok(text_finished()),
        ]),
        Some(&mut store),
    );
    assert_eq!(response.session.unwrap().turn_count, 2);
    assert_eq!(response.execution.finished_reason.as_deref(), Some("stop"));
    assert!(response.usage.is_none());
    let session: Session = store.get("s").unwrap();
    assert_eq!(session.turns[1].content, "ab");
    assert!(session.get_compaction().last_input_tokens.is_none());
}

// ---- Conversations ----

#[test]
fn the_next_call_shows_the_conversation_so_far() {
    let mut store = InMemorySessionStore::new();
    let mut first = request("My name is Alex.");
    first.session = Some(SessionRef::new("s"));
    run(first, Script::Answer(answer("Hello, Alex.")), Some(&mut store)).unwrap();

    let mut second = request("What is my name?");
    second.session = Some(SessionRef::new("s"));
    let (run, _) = EngineRun::start(EngineMode::Run, second, true, &vec![], true);
    let (run, _) = run.step(EngineEvent::ProfileLoaded(load("default")));
    let (_, action) = run.step(EngineEvent::SessionFound(Ok(store.get("s"))));
    match action {
        EngineAction::Call { messages, .. } => {
            let told: Vec<(&str, &str)> = messages
                .iter()
                .skip(1)
                .map(|m: &Message| (m.role.as_str(), m.content.as_str()))
                .collect();
            assert_eq!(
                told,
                vec![
                    ("user", "My name is Alex."),
                    ("assistant", "Hello, Alex."),
                    ("user", "What is my name?"),
                ]
            );
        }
        _ => panic!("expected the call"),
    }
}

// ---- Failed summaries ----

/// What a request comes to whose session is over budget when the summary fails.
fn failed_summary(mode: EngineMode, error: PriestError) -> Result<EngineReply, PriestError> {
    let mut session = Session::new("s", "default");
    for i in 0..8 {
        session.append_turn(if i % 2 == 0 { "user" } else { "assistant" }, "turn");
    }
    session.record_input_tokens(Some(100));
    let mut req = request("hi");
    req.session = Some(SessionRef::new("s"));
    req.config.max_context_tokens = Some(100);
    req.metadata.insert("key".into(), json("1"));
    let (run, _) = EngineRun::start(mode, req, true, &vec![], true);
    let (run, _) = run.step(EngineEvent::ProfileLoaded(load("default")));
    let (run, action) = run.step(EngineEvent::SessionFound(Ok(Some(session))));
    assert!(matches!(action, EngineAction::Summarize { .. }));
    let (_, action) = run.step(EngineEvent::Summarized(Err(error)));
    match action {
        EngineAction::Return(outcome) => outcome,
        _ => panic!("expected the end"),
    }
}

#[test]
fn a_failed_summary_is_answered() {
    let limited =
        || PriestError::ProviderRateLimited { provider: "mock".into(), retry_after: None };
    let reply = failed_summary(EngineMode::Run, limited()).unwrap();
    let EngineReply::Response(response) = reply else { panic!("expected a response") };
    assert!(!response.ok());
    assert_eq!(response.error.unwrap().code, "PROVIDER_RATE_LIMITED");
    assert_eq!(response.execution.finished_reason.as_deref(), Some("error"));
    assert_eq!(response.execution.latency_ms, None);
    assert_eq!(response.metadata["key"], json("1"));

    let reply = failed_summary(EngineMode::StreamEvents, boom()).unwrap();
    let EngineReply::Events(events) = reply else { panic!("expected events") };
    assert_eq!(events.len(), 1);
    assert!(matches!(
        &events[0],
        PriestStreamEvent::Done { response }
            if response.error.as_ref().unwrap().code == "PROVIDER_ERROR"
    ));

    // A stream of text has no response to carry the failure.
    assert!(matches!(
        failed_summary(EngineMode::Stream, boom()),
        Err(PriestError::ProviderError { .. })
    ));
}

#[test]
fn a_streamed_answer_is_shown_to_the_next_call_under_a_cap() {
    let events = || {
        Script::Events(vec![
            wrap_text(Ok("Hello, ".into())),
            wrap_text(Ok("Alex.".into())),
            Ok(text_finished()),
        ])
    };
    let texts = || Script::Texts(vec![Ok("Hello, ".into()), Ok("Alex.".into())]);
    for (mode, script) in [(EngineMode::Stream, texts()), (EngineMode::StreamEvents, events())] {
        let mut store = InMemorySessionStore::new();
        let mut first = request("My name is Alex.");
        first.session = Some(SessionRef::new("s"));
        drive(mode, first, script, Some(&mut store), false).unwrap();

        // The cap alone would open the replay on the answer.
        for (cap, replayed) in [(1, 2), (0, 0)] {
            let mut second = request("What is my name?");
            second.session = Some(SessionRef::new("s"));
            second.config.session_context_turns = Some(cap);
            let (run, _) = EngineRun::start(mode, second, true, &vec![], true);
            let (run, _) = run.step(EngineEvent::ProfileLoaded(load("default")));
            let (_, action) = run.step(EngineEvent::SessionFound(Ok(store.get("s"))));
            let EngineAction::Call { messages, .. } = action else {
                panic!("expected the call");
            };
            assert_eq!(messages.len(), replayed + 2);
            if replayed == 2 {
                assert_eq!(messages[1].content, "My name is Alex.");
                assert_eq!(messages[2].content, "Hello, Alex.");
            }
        }
    }
}
