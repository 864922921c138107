//! Conversation compaction and the session turn window.

use priest::clock::Timestamp;
use priest::compactor::{build_summary_messages, plan_compaction, should_compact};
use priest::context_builder::{build_messages, Message};
use priest::engine::compaction::{CompactAction, CompactEvent, CompactRun};
use priest::engine::run::{EngineAction, EngineEvent, EngineMode, EngineReply, EngineRun};
use priest::profile::default_profile::built_in_default;
use priest::providers::adapter::AdapterResult;
use priest::schema::config::PriestConfig;
use priest::schema::request::{PriestRequest, SessionRef};
use priest::schema::response::PriestResponse;
use priest::schema::tools::ToolExchangeTurn;
use priest::session::in_memory::InMemorySessionStore;
use priest::session::model::{Session, Turn};
use priest::session::records::{read_session, write_session};
use priest::PriestError;

const SUMMARY_MARKER: &str = "compress prior conversation";

type Calls = Vec<Vec<Message>>;

fn is_summary(messages: &[Message]) -> bool {
    messages
        .first()
        .map(|m| m.content.contains(SUMMARY_MARKER))
        .unwrap_or(false)
}

/// Answers a call: a summary to a call for one, a reply to any other.
fn complete(messages: Vec<Message>, input_tokens: u32, calls: &mut Calls) -> AdapterResult {
    let summary = is_summary(&messages);
    calls.push(messages);
    AdapterResult {
        text: if summary { "SUMMARY".into() } else { "assistant reply".into() },
        finish_reason: Some("stop".into()),
        input_tokens: Some(if summary { 5 } else { input_tokens }),
        output_tokens: Some(5),
        cached_input_tokens: None,
        reasoning_tokens: None,
        tool_calls: None,
        reasoning: None,
    }
}

/// Runs a request against a store in memory.
fn run(
    request: PriestRequest,
    store: &mut InMemorySessionStore,
    input_tokens: u32,
    calls: &mut Calls,
) -> Result<PriestResponse, PriestError> {
    let (mut run, mut action) = EngineRun::start(EngineMode::Run, request, true, &vec![], true);
    loop {
        let event = match action {
            EngineAction::LoadProfile { .. } => EngineEvent::ProfileLoaded(Ok(built_in_default())),
            EngineAction::GetSession { id } => EngineEvent::SessionFound(Ok(store.get(&id))),
            EngineAction::CreateSession { profile_name, wanted_id } => {
                EngineEvent::SessionCreated(Ok(store.create(&profile_name, wanted_id.as_deref())))
            }
            EngineAction::Summarize { messages, config } => {
                assert_eq!(config.max_output_tokens, Some(1024));
                EngineEvent::Summarized(Ok(complete(messages, input_tokens, calls)))
            }
            EngineAction::SaveSession { session } => {
                store.save(&session);
                EngineEvent::Saved(Ok(()))
            }
            EngineAction::Call { messages, .. } => EngineEvent::Completed {
                result: Ok(complete(messages, input_tokens, calls)),
                latency_ms: 1,
            },
            EngineAction::Return(Ok(EngineReply::Response(response))) => return Ok(response),
            EngineAction::Return(Ok(_)) => panic!("expected a response"),
            EngineAction::Return(Err(e)) => return Err(e),
        };
        let next = run.step(event);
        run = next.0;
        action = next.1;
    }
}

/// Compacts a session on demand.
fn compact_session(
    id: &str,
    config: &PriestConfig,
    registered: bool,
    store: Option<&mut InMemorySessionStore>,
    summary: Result<&str, PriestError>,
) -> Result<(bool, usize), PriestError> {
    let (mut run, mut action) = CompactRun::start(id, config.clone(), registered, store.is_some());
    let mut summary = Some(summary);
    let mut store = store;
    loop {
        let event = match action {
            CompactAction::GetSession { id } => {
                CompactEvent::SessionFound(Ok(store.as_ref().unwrap().get(&id)))
            }
            CompactAction::Summarize { messages, .. } => {
                assert!(is_summary(&messages));
                CompactEvent::Summarized(summary.take().unwrap().map(|text| {
                    let mut result = complete(messages, 1, &mut vec![]);
                    result.text = text.into();
                    result
                }))
            }
            CompactAction::SaveSession { session } => {
                store.as_mut().unwrap().save(&session);
                CompactEvent::Saved(Ok(()))
            }
            CompactAction::Return(outcome) => return outcome,
        };
        let next = run.step(event);
        run = next.0;
        action = next.1;
    }
}

fn budget_config() -> PriestConfig {
    let mut c = PriestConfig::new("mock", "test-model");
    c.max_context_tokens = Some(100);
    c.compaction_keep_turns = Some(2);
    c
}

fn turn(role: &str, content: &str) -> Turn {
    Turn {
        role: role.into(),
        content: content.into(),
        timestamp: Timestamp { seconds: 1_700_000_000, nanos: 0 },
    }
}

fn req(config: &PriestConfig, prompt: &str) -> PriestRequest {
    let mut r = PriestRequest::new(config.clone(), prompt);
    r.session = Some(SessionRef::new("s"));
    r
}

// ---- Compactor (pure) ----

#[test]
fn should_compact_off_without_budget_or_measured_turn() {
    assert!(!should_compact(Some(10_000), None));
    assert!(!should_compact(Some(10_000), Some(0)));
    assert!(!should_compact(None, Some(1000)));
}

#[test]
fn should_compact_fires_only_above_80_percent() {
    assert!(!should_compact(Some(799), Some(1000)));
    assert!(should_compact(Some(801), Some(1000)));
}

#[test]
fn plan_compaction_none_while_history_fits() {
    let turns = vec![turn("user", "a"), turn("assistant", "b")];
    assert!(plan_compaction(&turns, 0, 2).is_none());
}

#[test]
fn plan_compaction_folds_before_tail_and_advances() {
    let turns = vec![turn("user", "u1"), turn("assistant", "a1"), turn("user", "u2"), turn("assistant", "a2")];
    let plan = plan_compaction(&turns, 0, 2).unwrap();
    assert_eq!(plan.summarized_through, 2);
    assert_eq!(plan.to_summarize.iter().map(|t| t.content.clone()).collect::<Vec<_>>(), vec!["u1", "a1"]);
}

#[test]
fn plan_compaction_recursive_only_folds_after_summarized() {
    let turns = vec![
        turn("user", "u1"), turn("assistant", "a1"),
        turn("user", "u2"), turn("assistant", "a2"),
        turn("user", "u3"), turn("assistant", "a3"),
    ];
    let plan = plan_compaction(&turns, 2, 2).unwrap();
    assert_eq!(plan.summarized_through, 4);
    assert_eq!(plan.to_summarize.iter().map(|t| t.content.clone()).collect::<Vec<_>>(), vec!["u2", "a2"]);
}

#[test]
fn build_summary_messages_merges_existing_and_includes_new_turns() {
    let messages = build_summary_messages(Some("prior synopsis"), &[turn("user", "hello"), turn("assistant", "hi there")]);
    assert!(messages[0].content.contains(SUMMARY_MARKER));
    assert!(messages[1].content.contains("prior synopsis"));
    assert!(messages[1].content.contains("hello"));
    assert!(messages[1].content.contains("hi there"));
}

// ---- Engine compaction ----

#[test]
fn compacts_over_budget_chat_and_replays_summary_plus_tail() {
    let mut store = InMemorySessionStore::new();
    let mut calls = vec![];
    let config = budget_config();

    for prompt in ["msg1", "msg2", "msg3"] {
        run(req(&config, prompt), &mut store, 200, &mut calls).unwrap();
    }

    let session = store.get("s").unwrap();
    assert_eq!(session.get_compaction().summary.as_deref(), Some("SUMMARY"));

    assert!(calls.iter().any(|m| is_summary(m)));
    let last_chat = calls.iter().rev().find(|m| !is_summary(m)).unwrap();
    assert!(last_chat[0].content.contains("## Conversation so far (summary)"));
    assert!(last_chat[0].content.contains("SUMMARY"));
    assert!(!last_chat.iter().any(|m| m.content == "msg1"));
}

#[test]
fn compaction_state_survives_sqlite_round_trip() {
    // State that is written as camelCase JSON reads back from what is stored, and the stored text
    // has camelCase keys.
    let mut store = InMemorySessionStore::new();
    let config = budget_config();

    for prompt in ["msg1", "msg2", "msg3"] {
        run(req(&config, prompt), &mut store, 200, &mut vec![]).unwrap();
    }

    let record = write_session(&store.get("s").unwrap());
    let session = read_session(&record);
    let comp = session.get_compaction();
    assert_eq!(comp.summary.as_deref(), Some("SUMMARY"));
    assert_eq!(comp.summarized_through, 2);

    assert!(record.metadata.contains("summarizedThrough"));
    assert!(!record.metadata.contains("summarized_through"));
}

#[test]
fn does_not_record_trigger_when_tool_exchange_replayed() {
    let mut store = InMemorySessionStore::new();
    let config = budget_config();

    let mut request = req(&config, "msg1");
    request.tool_exchange = vec![ToolExchangeTurn::ToolResult {
        tool_call_id: "c1".into(),
        name: "web_search".into(),
        content: "big results".into(),
        is_error: None,
    }];
    run(request, &mut store, 200, &mut vec![]).unwrap();

    let session = store.get("s").unwrap();
    assert!(session.get_compaction().last_input_tokens.is_none());
}

#[test]
fn never_compacts_without_budget() {
    let mut store = InMemorySessionStore::new();
    let mut calls = vec![];
    let config = PriestConfig::new("mock", "test-model"); // no budget

    for prompt in ["msg1", "msg2", "msg3", "msg4"] {
        run(req(&config, prompt), &mut store, 200, &mut calls).unwrap();
    }

    let session = store.get("s").unwrap();
    assert!(session.get_compaction().summary.is_none());
    assert!(!calls.iter().any(|m| is_summary(m)));
}

#[test]
fn compact_session_folds_on_demand_and_reports_coverage() {
    let mut store = InMemorySessionStore::new();
    let no_budget = PriestConfig::new("mock", "test-model");

    for prompt in ["msg1", "msg2", "msg3"] {
        run(req(&no_budget, prompt), &mut store, 10, &mut vec![]).unwrap();
    }
    assert!(store.get("s").unwrap().get_compaction().summary.is_none());

    let mut config = PriestConfig::new("mock", "test-model");
    config.compaction_keep_turns = Some(2);
    let (compacted, summarized_through) =
        compact_session("s", &config, true, Some(&mut store), Ok("SUMMARY")).unwrap();
    assert!(compacted);
    assert_eq!(summarized_through, 4); // 6 turns, of which 2 are kept
    let session = store.get("s").unwrap();
    assert_eq!(session.get_compaction().summary.as_deref(), Some("SUMMARY"));
    assert_eq!(session.turns.len(), 6);
}

#[test]
fn compact_session_errors_for_unknown_session() {
    let mut store = InMemorySessionStore::new();
    let err = compact_session(
        "nope",
        &PriestConfig::new("mock", "m"),
        true,
        Some(&mut store),
        Ok("SUMMARY"),
    )
    .unwrap_err();
    assert!(matches!(err, PriestError::SessionNotFound { .. }));
}

#[test]
fn compact_session_without_store_or_work_does_nothing() {
    let config = PriestConfig::new("mock", "m");
    assert_eq!(compact_session("s", &config, true, None, Ok("x")).unwrap(), (false, 0));
    let mut store = InMemorySessionStore::new();
    store.create("default", Some("s"));
    assert_eq!(compact_session("s", &config, true, Some(&mut store), Ok("x")).unwrap(), (false, 0));
}

#[test]
fn compact_session_needs_a_provider_and_a_summary() {
    let mut store = InMemorySessionStore::new();
    store.save(&session_with(8));
    let mut config = PriestConfig::new("mock", "m");
    config.compaction_keep_turns = Some(2);
    let err = compact_session("s", &config, false, Some(&mut store), Ok("x")).unwrap_err();
    assert!(matches!(err, PriestError::ProviderNotRegistered { .. }));
    // A blank summary folds nothing.
    assert_eq!(compact_session("s", &config, true, Some(&mut store), Ok(" \n")).unwrap(), (false, 0));
    let failure = PriestError::ProviderError { provider: "mock".into(), message: "boom".into() };
    let err = compact_session("s", &config, true, Some(&mut store), Err(failure)).unwrap_err();
    assert!(matches!(err, PriestError::ProviderError { .. }));
    assert_eq!(compact_session("s", &config, true, Some(&mut store), Ok(" S ")).unwrap(), (true, 6));
    assert_eq!(store.get("s").unwrap().get_compaction().summary.as_deref(), Some("S"));
}

#[test]
fn should_compact_is_exact_at_four_fifths() {
    assert!(!should_compact(Some(800), Some(1000)));
    assert!(!should_compact(Some(4), Some(5)));
    assert!(should_compact(Some(5), Some(5)));
    assert!(should_compact(Some(1), Some(1)));
    assert!(should_compact(Some(u32::MAX), Some(u32::MAX)));
}

#[test]
fn planning_again_gives_nothing() {
    let turns = vec![turn("user", "a"), turn("assistant", "b"), turn("user", "c")];
    let plan = plan_compaction(&turns, 0, 1).unwrap();
    assert_eq!(plan.summarized_through, 2);
    assert!(plan_compaction(&turns, plan.summarized_through, 1).is_none());
}

#[test]
fn summary_request_is_exact() {
    let messages = build_summary_messages(None, &[turn("user", "hello"), turn("assistant", "hi")]);
    assert_eq!(messages.len(), 2);
    assert_eq!(messages[0].role, "system");
    assert_eq!(messages[1].role, "user");
    assert_eq!(
        messages[1].content,
        "Conversation turns to summarize:\n\nUSER: hello\n\nASSISTANT: hi\n\n---\n\nReturn the summary."
    );
    let merged = build_summary_messages(Some("  so far "), &[turn("stra\u{df}e", "x")]);
    assert_eq!(
        merged[1].content,
        "Existing summary so far:\n\nso far\n\n---\n\nNew conversation turns to fold in:\n\nSTRASSE: x\n\n---\n\nReturn one updated summary."
    );
}

// ---- Session turn window ----

fn session_with(n: usize) -> Session {
    let mut s = Session::new("s", "default");
    for i in 0..n {
        let role = if i % 2 == 0 { "user" } else { "assistant" };
        s.append_turn(role, format!("turn-{i}").as_str());
    }
    s
}

fn window_request(n: Option<usize>) -> PriestRequest {
    let mut c = PriestConfig::new("mock", "m");
    c.session_context_turns = n;
    PriestRequest::new(c, "Hi")
}

fn replayed(msgs: &[Message]) -> Vec<String> {
    let body: Vec<&Message> = msgs.iter().filter(|m| m.role != "system").collect();
    body[..body.len() - 1].iter().map(|m| m.content.clone()).collect()
}

#[test]
fn replays_all_turns_when_window_unset() {
    let msgs = build_messages(&window_request(None), &built_in_default(), Some(&session_with(6)));
    assert_eq!(replayed(&msgs), vec!["turn-0", "turn-1", "turn-2", "turn-3", "turn-4", "turn-5"]);
}

#[test]
fn replays_only_last_n_turns() {
    let msgs = build_messages(&window_request(Some(2)), &built_in_default(), Some(&session_with(6)));
    assert_eq!(replayed(&msgs), vec!["turn-4", "turn-5"]);
}

#[test]
fn replays_no_turns_when_window_is_zero() {
    let msgs = build_messages(&window_request(Some(0)), &built_in_default(), Some(&session_with(6)));
    assert!(replayed(&msgs).is_empty());
}

#[test]
fn snaps_odd_window_down_to_user_turn() {
    let msgs = build_messages(&window_request(Some(5)), &built_in_default(), Some(&session_with(8)));
    let first_replayed = msgs.iter().find(|m| m.role != "system").unwrap();
    assert_eq!(first_replayed.role, "user");
    assert_eq!(replayed(&msgs), vec!["turn-2", "turn-3", "turn-4", "turn-5", "turn-6", "turn-7"]);
}

#[test]
fn window_never_unhides_summarized_turns() {
    let mut session = session_with(6);
    session.apply_compaction("earlier conversation summary".into(), 4);
    let msgs = build_messages(&window_request(Some(5)), &built_in_default(), Some(&session));
    assert_eq!(replayed(&msgs), vec!["turn-4", "turn-5"]);
    assert!(msgs[0].content.contains("earlier conversation summary"));
}
