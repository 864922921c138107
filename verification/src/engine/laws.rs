//! What holds of every request.

use super::compaction::{CompactActionView, CompactEventView, CompactRunView, CompactStageView};
use super::event::{summed, PriestStreamEventView};
use super::reply::{pending_calls, streamed_text};
use super::run::{
    begun, first_unsupported, with_exchange, EngineActionView, EngineEventView, EngineMode,
    EngineReplyView, EngineRunView, EngineStageView,
};
use crate::clock::Timestamp;
use crate::compactor::over_budget;
use crate::context_builder::{
    law_history_is_replayed, law_window, messages_for, plain_message, replay_start,
    summary_in_bounds, user_text,
};
use crate::errors::PriestErrorView;
use crate::profile::model::ProfileView;
use crate::providers::adapter::{AdapterResultView, AdapterStreamEventView};
use crate::schema::request::PriestRequestView;
use crate::schema::response::{error_model, PriestResponseView};
use crate::session::model::{law_recorded_tokens_read_back, SessionView};
use crate::text::joined;
use vstd::prelude::*;

verus! {

/// How many more events a request can take in.
pub open spec fn events_left(stage: EngineStageView) -> nat {
    match stage {
        EngineStageView::AwaitProfile => 7,
        EngineStageView::AwaitFound { .. } => 6,
        EngineStageView::AwaitCreated { .. } => 5,
        EngineStageView::AwaitSummary { .. } => 4,
        EngineStageView::AwaitCompacted { .. } => 3,
        EngineStageView::AwaitAnswer { .. } => 2,
        EngineStageView::AwaitSaved { .. } => 1,
        EngineStageView::Finished => 0,
    }
}

/// Every event brings a request nearer to its end, and the end is where it returns.
pub proof fn law_requests_come_to_an_end(run: EngineRunView, event: EngineEventView, now: Timestamp)
    requires
        !(run.stage is Finished),
    ensures
        events_left(run.step(event, now).0.stage) < events_left(run.stage),
        run.step(event, now).0.stage is Finished <==> run.step(event, now).1 is Return,
{
}

/// A request for a provider that is not registered is refused with that error before anything else
/// is done.
pub proof fn law_unregistered_providers_are_refused(
    mode: EngineMode,
    request: PriestRequestView,
    supported: Seq<bool>,
    has_store: bool,
)
    ensures
        begun(mode, request, false, supported, has_store).1 == EngineActionView::Return(
            Err(PriestErrorView::ProviderNotRegistered { provider: request.config.provider }),
        ),
{
}

proof fn lemma_first_unsupported(request: PriestRequestView, supported: Seq<bool>, from: int, i: int)
    requires
        0 <= from <= i < request.provider_tools.len(),
    ensures
        !(i < supported.len() && supported[i]) ==> first_unsupported(
            request.provider_tools,
            supported,
            from,
        ) is Some,
    decreases i - from,
{
    if from < i {
        lemma_first_unsupported(request, supported, from + 1, i);
    }
}

/// A request for a tool that the provider does not say it supports goes no further: it is answered
/// with an error of the provider, which only a stream of text raises.
pub proof fn law_unsupported_tools_are_refused(
    mode: EngineMode,
    request: PriestRequestView,
    supported: Seq<bool>,
    has_store: bool,
    i: int,
)
    requires
        0 <= i < request.provider_tools.len(),
        !(i < supported.len() && supported[i]),
    ensures
        begun(mode, request, true, supported, has_store).1 matches EngineActionView::Return(
            outcome,
        ) && match mode {
            EngineMode::Stream => outcome matches Err(e) && e.code() == "PROVIDER_ERROR"@,
            _ => outcome matches Ok(reply) && response_in(reply) matches Some(response)
                && response.error matches Some(error) && error.code == "PROVIDER_ERROR"@,
        },
{
    lemma_first_unsupported(request, supported, 0, i);
}

/// What a reference to a session means. With a store, an existing session is looked up or else a new
/// one is made, as the reference says; one that is missing is made under its id or is an error.
/// Without a reference or without a store the provider is called at once.
pub proof fn law_session_reference(
    run: EngineRunView,
    profile: ProfileView,
    session: SessionView,
    now: Timestamp,
)
    requires
        run.stage is AwaitProfile,
    ensures
        ({
            let loaded = run.step(EngineEventView::ProfileLoaded(Ok(profile)), now);
            match run.request.session {
                Some(reference) if run.has_store => if !reference.continue_existing {
                    loaded.1 == EngineActionView::CreateSession {
                        profile_name: run.request.profile,
                        wanted_id: None,
                    }
                } else {
                    &&& loaded.1 == EngineActionView::GetSession { id: reference.id }
                    &&& loaded.0.step(EngineEventView::SessionFound(Ok(None)), now).1 == (
                    if reference.create_if_missing {
                        EngineActionView::CreateSession {
                            profile_name: run.request.profile,
                            wanted_id: Some(reference.id),
                        }
                    } else {
                        EngineActionView::Return(
                            Err(PriestErrorView::SessionNotFound { session_id: reference.id }),
                        )
                    })
                    &&& session_of(
                        loaded.0.step(EngineEventView::SessionFound(Ok(Some(session))), now).0.stage,
                    ) == Some(session)
                },
                _ => loaded.1 is Call,
            }
        }),
{
}

/// The error that an event brings, if it brings one.
pub open spec fn error_in(event: EngineEventView) -> Option<PriestErrorView> {
    match event {
        EngineEventView::ProfileLoaded(Err(e)) => Some(e),
        EngineEventView::SessionFound(Err(e)) => Some(e),
        EngineEventView::SessionCreated(Err(e)) => Some(e),
        EngineEventView::Summarized(Err(e)) => Some(e),
        EngineEventView::Saved(Err(e)) => Some(e),
        EngineEventView::Completed { result: Err(e), .. } => Some(e),
        EngineEventView::TextStreamed { texts: Err(e) } => Some(e),
        EngineEventView::EventsStreamed { events: Err(e), .. } => Some(e),
        _ => None,
    }
}

/// Whether an event is what a request waits for.
pub open spec fn is_awaited(run: EngineRunView, event: EngineEventView) -> bool {
    match run.stage {
        EngineStageView::AwaitProfile => event is ProfileLoaded,
        EngineStageView::AwaitFound { .. } => event is SessionFound && run.request.session is Some,
        EngineStageView::AwaitCreated { .. } => event is SessionCreated,
        EngineStageView::AwaitSummary { .. } => event is Summarized,
        EngineStageView::AwaitCompacted { .. } => event is Saved,
        EngineStageView::AwaitAnswer { .. } => match run.mode {
            EngineMode::Run => event is Completed,
            EngineMode::Stream => event is TextStreamed,
            EngineMode::StreamEvents => event is EventsStreamed,
        },
        EngineStageView::AwaitSaved { .. } => event is Saved,
        EngineStageView::Finished => false,
    }
}

/// No error escapes a request but those that its profile, its session or its text stream met with,
/// and that a session is missing which must not be created. What the provider fails at escapes only
/// from a stream of text, whether it was to answer or to write a summary.
pub proof fn law_which_errors_escape(run: EngineRunView, event: EngineEventView, now: Timestamp)
    requires
        is_awaited(run, event),
    ensures
        run.step(event, now).1 matches EngineActionView::Return(Err(e)) ==> {
            ||| {
                &&& error_in(event) == Some(e)
                &&& !(event is Completed) && !(event is EventsStreamed)
                &&& event is Summarized || event is TextStreamed ==> run.mode == EngineMode::Stream
            }
            ||| {
                &&& event == EngineEventView::SessionFound(Ok(None))
                &&& run.request.session is Some
                &&& !run.request.session->0.create_if_missing
                &&& e == (PriestErrorView::SessionNotFound {
                    session_id: run.request.session->0.id,
                })
            }
        },
{
}

/// The response in a reply, if there is one.
pub open spec fn response_in(reply: EngineReplyView) -> Option<PriestResponseView> {
    match reply {
        EngineReplyView::Response(response) => Some(response),
        EngineReplyView::Events(events) => match events.last() {
            PriestStreamEventView::Done { response } if events.len() > 0 => Some(response),
            _ => None,
        },
        _ => None,
    }
}

/// A failure at the provider, whether it was to answer or to write a summary, is answered, not
/// raised: the response carries the error and the request's metadata, and ends for that reason. Only
/// a stream of text raises it.
pub proof fn law_provider_failures_are_answered(
    run: EngineRunView,
    event: EngineEventView,
    now: Timestamp,
)
    requires
        run.stage is AwaitAnswer || run.stage is AwaitSummary,
        is_awaited(run, event),
        run.mode != EngineMode::Stream,
        error_in(event) is Some,
    ensures
        run.step(event, now).1 matches EngineActionView::Return(Ok(reply)) && {
            &&& response_in(reply) is Some
            &&& response_in(reply)->0.error == Some(error_model(error_in(event)->0))
            &&& response_in(reply)->0.execution.finished_reason == Some("error"@)
            &&& response_in(reply)->0.metadata == run.request.metadata
        },
{
}

/// Without a budget no summary is ever asked for, and neither is one before the budget is exceeded.
pub proof fn law_compaction_needs_a_budget(
    run: EngineRunView,
    event: EngineEventView,
    now: Timestamp,
)
    ensures
        run.step(event, now).1 is Summarize ==> {
            &&& run.request.config.max_context_tokens is Some
            &&& run.step(event, now).0.stage matches EngineStageView::AwaitSummary {
                open,
                ..
            } && over_budget(
                open.session.compaction().last_input_tokens,
                run.request.config.max_context_tokens,
            )
        },
{
}

/// The session that a request holds on to.
pub open spec fn session_of(stage: EngineStageView) -> Option<SessionView> {
    match stage {
        EngineStageView::AwaitSummary { open, .. } => Some(open.session),
        EngineStageView::AwaitCompacted { open, .. } => Some(open.session),
        EngineStageView::AwaitAnswer { opened: Some(open) } => Some(open.session),
        _ => None,
    }
}

/// A session that is saved is the one the request belongs to, with all its turns as they were and
/// at most one exchange more.
pub proof fn law_saving_keeps_all_turns(run: EngineRunView, event: EngineEventView, now: Timestamp)
    ensures
        run.step(event, now).1 matches EngineActionView::SaveSession { session } ==> {
            &&& session_of(run.stage) is Some
            &&& session.id == session_of(run.stage)->0.id
            &&& session.created_at == session_of(run.stage)->0.created_at
            &&& session.turns.len() <= session_of(run.stage)->0.turns.len() + 2
            &&& session.turns.len() >= session_of(run.stage)->0.turns.len()
            &&& session.turns.take(session_of(run.stage)->0.turns.len() as int) == session_of(
                run.stage,
            )->0.turns
        },
{
    if let EngineActionView::SaveSession { session } = run.step(event, now).1 {
        let before = session_of(run.stage)->0;
        assert(session.turns.take(before.turns.len() as int) =~= before.turns);
    }
}

/// The text of the answer that an event brings: what was written, or all that was streamed.
pub open spec fn answer_in(event: EngineEventView) -> Option<Seq<char>> {
    match event {
        EngineEventView::Completed { result: Ok(answer), .. } => Some(answer.text),
        EngineEventView::TextStreamed { texts: Ok(stream) } => Some(joined(stream.chunks, ""@)),
        EngineEventView::EventsStreamed { events: Ok(stream), .. } => streamed_text(
            summed(stream.events).texts,
        ),
        _ => None,
    }
}

/// What a final answer adds to its session is the prompt and the answer's text, and nothing of the
/// tool exchange that led to it.
pub proof fn law_what_is_saved(run: EngineRunView, event: EngineEventView, now: Timestamp)
    requires
        run.stage is AwaitAnswer,
    ensures
        run.step(event, now).1 matches EngineActionView::SaveSession { session } ==> {
            let before = session_of(run.stage)->0.turns;
            &&& session.turns.len() == before.len() + 2
            &&& session.turns.take(before.len() as int) == before
            &&& session.turns[before.len() as int].role == "user"@
            &&& session.turns[before.len() as int].content == run.request.prompt
            &&& session.turns[before.len() as int + 1].role == "assistant"@
            &&& answer_in(event) == Some(session.turns[before.len() as int + 1].content)
        },
{
    law_saving_keeps_all_turns(run, event, now);
}

/// The size of the input is recorded for a plain chat turn, and only for one: a tool exchange, which
/// inflates the input, leaves the compaction state as it is.
pub proof fn law_input_is_measured_on_chat_turns(
    run: EngineRunView,
    answer: AdapterResultView,
    latency_ms: i64,
    now: Timestamp,
)
    requires
        run.stage is AwaitAnswer,
        run.mode == EngineMode::Run,
    ensures
        run.step(EngineEventView::Completed { result: Ok(answer), latency_ms }, now).1 matches
            EngineActionView::SaveSession { session } ==> {
            let before = session_of(run.stage)->0.compaction();
            if run.request.tool_exchange.len() == 0 && answer.input_tokens is Some {
                &&& session.compaction().last_input_tokens == answer.input_tokens
                &&& session.compaction().summary == before.summary
                &&& session.compaction().summarized_through == before.summarized_through
            } else {
                session.compaction() == before
            }
        },
{
    if let EngineStageView::AwaitAnswer { opened: Some(open) } = run.stage {
        if let Some(tokens) = answer.input_tokens {
            law_recorded_tokens_read_back(
                with_exchange(open.session, run.request.prompt, answer.text, now),
                tokens,
                now,
            );
        }
    }
}

/// However an answer came, saving it leaves the summary and how far it reaches as they are.
proof fn lemma_answers_keep_the_summary(run: EngineRunView, event: EngineEventView, now: Timestamp)
    requires
        run.stage is AwaitAnswer,
    ensures
        run.step(event, now).1 matches EngineActionView::SaveSession { session } ==> {
            let before = session_of(run.stage)->0.compaction();
            &&& session.compaction().summary == before.summary
            &&& session.compaction().summarized_through == before.summarized_through
        },
{
    if let EngineEventView::Completed { result: Ok(answer), latency_ms } = event {
        if run.mode == EngineMode::Run {
            law_input_is_measured_on_chat_turns(run, answer, latency_ms, now);
        }
    }
}

/// A conversation goes on: once an answer is saved, written or streamed, a request that continues
/// the session shows the model the prompt and the answer right before its own message, unless its cap
/// on replayed turns lets none through.
pub proof fn law_conversations_go_on(
    run: EngineRunView,
    event: EngineEventView,
    now: Timestamp,
    following: PriestRequestView,
    profile: ProfileView,
)
    requires
        run.stage is AwaitAnswer,
        session_of(run.stage) matches Some(session) ==> summary_in_bounds(session),
        following.config.session_context_turns matches Some(cap) ==> cap >= 1,
    ensures
        run.step(event, now).1 matches EngineActionView::SaveSession { session } ==> {
            let messages = messages_for(following, profile, Some(session));
            let at = messages.len() - 1 - following.tool_exchange.len();
            &&& answer_in(event) is Some
            &&& at >= 2
            &&& messages[at] == plain_message("user"@, user_text(following))
            &&& messages[at - 1] == plain_message("assistant"@, answer_in(event)->0)
            &&& messages[at - 2] == plain_message("user"@, run.request.prompt)
        },
{
    law_what_is_saved(run, event, now);
    lemma_answers_keep_the_summary(run, event, now);
    if let EngineActionView::SaveSession { session } = run.step(event, now).1 {
        let n = session.turns.len() as int;
        let start = replay_start(following, session) as int;
        law_history_is_replayed(following, profile, session);
        if let Some(cap) = following.config.session_context_turns {
            law_window(session.turns, session.compaction().summarized_through as nat, cap);
            reveal_strlit("user");
            reveal_strlit("assistant");
            assert("user"@.len() != "assistant"@.len());
            assert(session.turns[n - 1].role == "assistant"@);
            assert(session.turns[n - 2].role == "user"@);
        }
        assert(start <= n - 2);
        let count = n - start;
        let messages = messages_for(following, profile, Some(session));
        let at = messages.len() - 1 - following.tool_exchange.len();
        let from = at - count;
        assert(messages[from + (count - 1)] == messages[at - 1]);
        assert(messages[from + (count - 2)] == messages[at - 2]);
    }
}

/// The text of a response is what the provider wrote, unchanged.
pub proof fn law_text_is_as_written(
    run: EngineRunView,
    answer: AdapterResultView,
    latency_ms: i64,
    now: Timestamp,
)
    requires
        run.stage is AwaitAnswer,
        run.mode == EngineMode::Run,
    ensures
        ({
            let next = run.step(EngineEventView::Completed { result: Ok(answer), latency_ms }, now);
            reply_in(next.0, next.1) matches Some(reply) && response_in(reply) matches Some(
                response,
            ) && response.text == Some(answer.text) && response.error is None
        }),
{
}

/// While tool calls are pending nothing is saved: the request returns.
pub proof fn law_pending_tool_calls_are_not_saved(
    run: EngineRunView,
    event: EngineEventView,
    now: Timestamp,
)
    requires
        run.stage is AwaitAnswer,
        is_awaited(run, event),
        match event {
            EngineEventView::Completed { result: Ok(answer), .. } => pending_calls(
                answer.tool_calls,
            ) is Some,
            EngineEventView::EventsStreamed { events: Ok(stream), .. } => summed(
                stream.events,
            ).tool_calls.len() > 0,
            _ => false,
        },
    ensures
        run.step(event, now).1 is Return,
{
}

/// What a request says about its reply once that is ready.
pub open spec fn reply_in(run: EngineRunView, action: EngineActionView) -> Option<EngineReplyView> {
    match (run.stage, action) {
        (EngineStageView::AwaitSaved { reply, .. }, _) => Some(reply),
        (_, EngineActionView::Return(Ok(reply))) => Some(reply),
        _ => None,
    }
}

proof fn lemma_forwarded_is_not_done(events: Seq<AdapterStreamEventView>)
    ensures
        forall|i: int|
            0 <= i < summed(events).forwarded.len() ==> !(#[trigger] summed(events).forwarded[i]
                is Done),
    decreases events.len(),
{
    if events.len() > 0 {
        lemma_forwarded_is_not_done(events.drop_last());
        let before = summed(events.drop_last()).forwarded;
        let after = summed(events).forwarded;
        assert(forall|i: int| 0 <= i < before.len() ==> after[i] == before[i]);
    }
}

/// Whether events end with the response, and hold it nowhere else.
pub open spec fn done_once(events: Seq<PriestStreamEventView>) -> bool {
    &&& events.len() > 0
    &&& events.last() is Done
    &&& forall|i: int| 0 <= i < events.len() - 1 ==> !(#[trigger] events[i] is Done)
}

/// A stream of events ends with the response, and with nothing else.
pub proof fn law_done_comes_last(run: EngineRunView, event: EngineEventView, now: Timestamp)
    requires
        run.stage is AwaitAnswer,
        run.mode == EngineMode::StreamEvents,
        event is EventsStreamed,
    ensures
        reply_in(run.step(event, now).0, run.step(event, now).1) matches Some(
            EngineReplyView::Events(events),
        ) && done_once(events),
{
    if let EngineEventView::EventsStreamed { events: result, .. } = event {
        let events = match result {
            Ok(stream) => stream.events,
            Err(_) => Seq::empty(),
        };
        lemma_forwarded_is_not_done(events);
    }
}

/// Metadata goes into a response as it came.
pub proof fn law_metadata_is_echoed(run: EngineRunView, event: EngineEventView, now: Timestamp)
    requires
        run.stage is AwaitAnswer,
        is_awaited(run, event),
        run.mode != EngineMode::Stream,
    ensures
        reply_in(run.step(event, now).0, run.step(event, now).1) matches Some(reply) && response_in(
            reply,
        ) matches Some(response) && response.metadata == run.request.metadata,
{
}

/// How many more events a compaction on demand can take in.
pub open spec fn compaction_events_left(stage: CompactStageView) -> nat {
    match stage {
        CompactStageView::AwaitSession => 3,
        CompactStageView::AwaitSummary { .. } => 2,
        CompactStageView::AwaitSaved { .. } => 1,
        CompactStageView::Finished => 0,
    }
}

/// A compaction on demand comes to an end, and the session that it saves keeps its raw turns.
pub proof fn law_compaction_on_demand(
    run: CompactRunView,
    event: CompactEventView,
    now: Timestamp,
)
    requires
        !(run.stage is Finished),
    ensures
        compaction_events_left(run.step(event, now).0.stage) < compaction_events_left(run.stage),
        run.step(event, now).0.stage is Finished <==> run.step(event, now).1 is Return,
        run.step(event, now).1 matches CompactActionView::SaveSession { session: after } ==> (
        run.stage matches CompactStageView::AwaitSummary { session, .. } && after.id == session.id
            && after.turns == session.turns),
{
}

} // verus!
