//! Laws on requests: what a provider is called with, and what a reply holds of what came of it.

use crate::clock::Timestamp;
use crate::compactor::over_budget;
use crate::context_builder::messages_for;
use crate::engine::compaction::{
    compact_start, summary_call, CompactActionView, CompactEventView, CompactRunView,
};
use crate::engine::event::{
    before_error, first_error, summed, totals_fit, EventStreamView, PriestStreamEventView,
    TextStreamView,
};
use crate::engine::laws::{is_awaited, reply_in, response_in, session_of};
use crate::engine::run::{
    begun, unsupported_tool, EngineActionView, EngineEventView, EngineMode, EngineReplyView,
    EngineRunView, EngineStageView, OpenSessionView,
};
use crate::errors::PriestErrorView;
use crate::laws::streams::texts_told;
use crate::laws::texts::mentions;
use crate::profile::model::ProfileView;
use crate::providers::adapter::{AdapterResultView, AdapterStreamEventView};
use crate::schema::config::PriestConfigView;
use crate::schema::request::PriestRequestView;
use crate::schema::tools::ToolCallView;
use crate::session::model::SessionView;
use crate::text::{joined, occurs_at, trimmed};
use vstd::prelude::*;

verus! {

/// The profile that a request goes by.
pub open spec fn profile_in(run: EngineRunView, event: EngineEventView) -> Option<ProfileView> {
    match (run.stage, event) {
        (EngineStageView::AwaitProfile, EngineEventView::ProfileLoaded(Ok(profile))) => Some(
            profile,
        ),
        (EngineStageView::AwaitFound { profile }, _) => Some(profile),
        (EngineStageView::AwaitCreated { profile }, _) => Some(profile),
        (EngineStageView::AwaitSummary { profile, .. }, _) => Some(profile),
        (EngineStageView::AwaitCompacted { profile, .. }, _) => Some(profile),
        _ => None,
    }
}

/// Whatever happens to a request, it stays the request that it was. Where the provider is called,
/// it is called with the messages of that request, under its profile and in the session that it
/// goes on with, and with its tools and its choice of tools as they are; without tools it is called
/// without.
pub proof fn law_the_provider_gets_the_request(
    run: EngineRunView,
    event: EngineEventView,
    now: Timestamp,
)
    ensures
        run.step(event, now).0.request == run.request,
        run.step(event, now).0.mode == run.mode,
        run.step(event, now).0.has_store == run.has_store,
        run.step(event, now).1 matches EngineActionView::Call { messages, options } ==> {
            let after = run.step(event, now).0.stage;
            &&& after is AwaitAnswer
            &&& profile_in(run, event) is Some
            &&& messages == messages_for(
                run.request,
                profile_in(run, event)->0,
                session_of(after),
            )
            &&& options is None <==> run.request.tools.len() == 0
                && run.request.provider_tools.len() == 0
            &&& options matches Some(o) ==> o.tools == run.request.tools && o.provider_tools
                == run.request.provider_tools && o.tool_choice == run.request.tool_choice
        },
{
}

/// A request whose provider is there and supports its tools begins by loading the profile that it
/// names.
pub proof fn law_requests_begin_with_their_profile(
    mode: EngineMode,
    request: PriestRequestView,
    supported: Seq<bool>,
    has_store: bool,
)
    requires
        request.provider_tools.len() <= supported.len(),
        forall|i: int| 0 <= i < request.provider_tools.len() ==> #[trigger] supported[i],
    ensures
        ({
            let (run, action) = begun(mode, request, true, supported, has_store);
            &&& action == (EngineActionView::LoadProfile { name: request.profile })
            &&& run.request == request
            &&& run.mode == mode
            &&& run.has_store == has_store
            &&& run.stage is AwaitProfile
        }),
{
    lemma_all_supported(request, supported, 0);
}

proof fn lemma_all_supported(request: PriestRequestView, supported: Seq<bool>, from: int)
    requires
        0 <= from,
        request.provider_tools.len() <= supported.len(),
        forall|i: int| 0 <= i < request.provider_tools.len() ==> #[trigger] supported[i],
    ensures
        crate::engine::run::first_unsupported(request.provider_tools, supported, from) is None,
    decreases request.provider_tools.len() - from,
{
    if from < request.provider_tools.len() {
        assert(supported[from]);
        lemma_all_supported(request, supported, from + 1);
    }
}

/// A request for a tool of the provider's own that is not supported is refused for the sake of the
/// first such tool: the error says the tool and the model, and is the provider's that was asked.
pub proof fn law_the_first_unsupported_tool_is_named(
    mode: EngineMode,
    request: PriestRequestView,
    supported: Seq<bool>,
    has_store: bool,
    i: int,
)
    requires
        0 <= i < request.provider_tools.len(),
        i < supported.len() ==> !supported[i],
        i <= supported.len(),
        forall|j: int| 0 <= j < i ==> #[trigger] supported[j],
    ensures
        ({
            let action = begun(mode, request, true, supported, has_store).1;
            let e = unsupported_tool(request, request.provider_tools[i]);
            let said = e->ProviderError_message;
            &&& e is ProviderError
            &&& e->ProviderError_provider == request.config.provider
            &&& mentions(said, request.provider_tools[i].wire_name())
            &&& mentions(said, request.config.model)
            &&& mode == EngineMode::Stream ==> action == EngineActionView::Return(Err(e))
            &&& mode != EngineMode::Stream ==> (action matches EngineActionView::Return(Ok(reply))
                && response_in(reply) matches Some(response) && response.error matches Some(told)
                && told.code == e.code() && told.message == e.message() && told.details
                == e.details() && response.metadata == request.metadata
                && response.execution.finished_reason == Some("error"@))
        }),
{
    lemma_first_is_named(request, supported, 0, i);
    let name = request.provider_tools[i].wire_name();
    let model = request.config.model;
    let said = unsupported_tool(request, request.provider_tools[i])->ProviderError_message;
    let opening = "provider tool '"@;
    let between = "' is not supported for model '"@;
    let at = opening.len() as int;
    assert(said.subrange(at, at + name.len()) =~= name);
    assert(occurs_at(said, name, at));
    let model_at = at + name.len() + between.len();
    assert(said.subrange(model_at, model_at + model.len()) =~= model);
    assert(occurs_at(said, model, model_at));
}

proof fn lemma_first_is_named(
    request: PriestRequestView,
    supported: Seq<bool>,
    from: int,
    i: int,
)
    requires
        0 <= from <= i < request.provider_tools.len(),
        i < supported.len() ==> !supported[i],
        i <= supported.len(),
        forall|j: int| 0 <= j < i ==> #[trigger] supported[j],
    ensures
        crate::engine::run::first_unsupported(request.provider_tools, supported, from) == Some(
            request.provider_tools[i],
        ),
    decreases i - from,
{
    if from < i {
        assert(supported[from]);
        lemma_first_is_named(request, supported, from + 1, i);
    }
}

/// The session that a request goes on with is the one found or the one made, and the request knows
/// which of the two it is.
pub proof fn law_sessions_are_gone_on_with(
    run: EngineRunView,
    session: SessionView,
    now: Timestamp,
)
    ensures
        run.stage is AwaitFound ==> opened_in(
            run.step(EngineEventView::SessionFound(Ok(Some(session))), now).0.stage,
        ) == Some(OpenSessionView { session, is_new: false }),
        run.stage is AwaitCreated ==> opened_in(
            run.step(EngineEventView::SessionCreated(Ok(session)), now).0.stage,
        ) == Some(OpenSessionView { session, is_new: true }),
{
}

/// The session that a request holds on to, and whether it is new.
pub open spec fn opened_in(stage: EngineStageView) -> Option<OpenSessionView> {
    match stage {
        EngineStageView::AwaitSummary { open, .. } => Some(open),
        EngineStageView::AwaitCompacted { open, .. } => Some(open),
        EngineStageView::AwaitAnswer { opened } => opened,
        _ => None,
    }
}

/// A response tells what the provider answered: its text, its calls, its reasoning, its counts and
/// their sum, and why it ended; who was asked, with which model and profile, and how long it took;
/// and, where there is a session, which, whether it is new and how many turns it has now. While
/// calls are pending the session has as many as before; else two more, and it is saved.
pub proof fn law_responses_tell_the_answer(
    run: EngineRunView,
    answer: AdapterResultView,
    latency_ms: i64,
    now: Timestamp,
)
    requires
        run.stage is AwaitAnswer,
        run.mode == EngineMode::Run,
        answer.totals_fit(),
    ensures
        ({
            let (after, action) = run.step(
                EngineEventView::Completed { result: Ok(answer), latency_ms },
                now,
            );
            let asked = answer.tool_calls is Some && answer.tool_calls->0.len() > 0;
            let opened = run.stage->opened;
            &&& reply_in(after, action) matches Some(EngineReplyView::Response(response)) && {
                &&& response.text == Some(answer.text)
                &&& response.tool_calls == if asked {
                    answer.tool_calls
                } else {
                    None
                }
                &&& response.reasoning == answer.reasoning
                &&& response.error is None
                &&& response.metadata == run.request.metadata
                &&& response.execution.provider == run.request.config.provider
                &&& response.execution.model == run.request.config.model
                &&& response.execution.profile == run.request.profile
                &&& response.execution.latency_ms == Some(latency_ms)
                &&& response.execution.finished_reason == if asked {
                    Some("tool_calls"@)
                } else {
                    answer.finish_reason
                }
                &&& response.usage matches Some(usage) && {
                    &&& usage.input_tokens == answer.input_tokens
                    &&& usage.output_tokens == answer.output_tokens
                    &&& usage.cached_input_tokens == answer.cached_input_tokens
                    &&& usage.reasoning_tokens == answer.reasoning_tokens
                    &&& usage.total_tokens is Some <==> answer.input_tokens is Some
                        && answer.output_tokens is Some
                    &&& usage.total_tokens matches Some(total) ==> total == answer.input_tokens->0
                        + answer.output_tokens->0
                }
                &&& opened is None ==> response.session is None && action is Return
                &&& opened matches Some(open) ==> {
                    &&& response.session is Some
                    &&& response.session->0.id == open.session.id
                    &&& response.session->0.is_new == open.is_new
                    &&& response.session->0.turn_count == open.session.turns.len() + if asked {
                        0nat
                    } else {
                        2
                    }
                    &&& asked <==> action is Return
                    &&& !asked ==> action is SaveSession
                }
            }
        }),
{
}

/// What is saved of an answer is stamped with the time it was saved at: both turns and the session.
pub proof fn law_saved_turns_are_stamped(
    run: EngineRunView,
    event: EngineEventView,
    now: Timestamp,
)
    requires
        run.stage is AwaitAnswer,
    ensures
        run.step(event, now).1 matches EngineActionView::SaveSession { session } ==> {
            let n = session.turns.len();
            &&& n >= 2
            &&& session.turns[n - 1].timestamp == now
            &&& session.turns[n - 2].timestamp == now
            &&& session.updated_at == now
            &&& session.profile_name == session_of(run.stage)->0.profile_name
        },
{
}

/// The calls whose end events tell, in order.
pub open spec fn ends_told(events: Seq<AdapterStreamEventView>) -> Seq<ToolCallView>
    decreases events.len(),
{
    if events.len() == 0 {
        Seq::empty()
    } else {
        let before = ends_told(events.drop_last());
        match events.last() {
            AdapterStreamEventView::ToolCallEnd { tool_call, .. } => before.push(tool_call),
            _ => before,
        }
    }
}

/// The last event of those that tell counts.
pub open spec fn counts_told(events: Seq<AdapterStreamEventView>) -> Option<AdapterStreamEventView>
    decreases events.len(),
{
    if events.len() == 0 {
        None
    } else if events.last() is Usage {
        Some(events.last())
    } else {
        counts_told(events.drop_last())
    }
}

/// The last event of those that tell the end.
pub open spec fn finish_told(events: Seq<AdapterStreamEventView>) -> Option<AdapterStreamEventView>
    decreases events.len(),
{
    if events.len() == 0 {
        None
    } else if events.last() is Finish {
        Some(events.last())
    } else {
        finish_told(events.drop_last())
    }
}

/// The events but for those that tell the end.
pub open spec fn without_finish(events: Seq<AdapterStreamEventView>) -> Seq<AdapterStreamEventView>
    decreases events.len(),
{
    if events.len() == 0 {
        Seq::empty()
    } else if events.last() is Finish {
        without_finish(events.drop_last())
    } else {
        without_finish(events.drop_last()).push(events.last())
    }
}

/// An event tells the caller what an event of the provider tells.
pub open spec fn tells_the_same(told: PriestStreamEventView, event: AdapterStreamEventView) -> bool {
    match event {
        AdapterStreamEventView::TextDelta { text } => told == (PriestStreamEventView::TextDelta {
            text,
        }),
        AdapterStreamEventView::ReasoningSummaryDelta { text } => told == (
        PriestStreamEventView::ReasoningSummaryDelta { text }),
        AdapterStreamEventView::ToolCallStart { index, id, name } => told == (
        PriestStreamEventView::ToolCallStart { index, id, name }),
        AdapterStreamEventView::ToolCallDelta { index, arguments_delta } => told == (
        PriestStreamEventView::ToolCallDelta { index, arguments_delta }),
        AdapterStreamEventView::ToolCallEnd { index, tool_call } => told == (
        PriestStreamEventView::ToolCallEnd { index, tool_call }),
        AdapterStreamEventView::Usage {
            input_tokens,
            output_tokens,
            cached_input_tokens,
            reasoning_tokens,
        } => told == (PriestStreamEventView::Usage {
            input_tokens,
            output_tokens,
            cached_input_tokens,
            reasoning_tokens,
        }),
        AdapterStreamEventView::Finish { .. } => false,
    }
}

proof fn lemma_summed(events: Seq<AdapterStreamEventView>)
    requires
        totals_fit(events),
    ensures
        ({
            let sum = summed(events);
            let shown = without_finish(events);
            &&& sum.texts == texts_told(events)
            &&& sum.tool_calls == ends_told(events)
            &&& sum.forwarded.len() == shown.len()
            &&& forall|i: int|
                0 <= i < shown.len() ==> tells_the_same(#[trigger] sum.forwarded[i], shown[i])
            &&& counts_told(events) is None ==> sum.usage is None
            &&& counts_told(events) matches Some(
                AdapterStreamEventView::Usage {
                    input_tokens,
                    output_tokens,
                    cached_input_tokens,
                    reasoning_tokens,
                },
            ) ==> {
                &&& sum.usage matches Some(usage) && {
                    &&& usage.input_tokens == input_tokens
                    &&& usage.output_tokens == output_tokens
                    &&& usage.cached_input_tokens == cached_input_tokens
                    &&& usage.reasoning_tokens == reasoning_tokens
                    &&& usage.total_tokens is Some <==> input_tokens is Some && output_tokens
                        is Some
                    &&& usage.total_tokens matches Some(total) ==> total == input_tokens->0
                        + output_tokens->0
                }
            }
            &&& counts_told(events) is Some ==> counts_told(events)->0 is Usage
            &&& finish_told(events) is Some ==> finish_told(events)->0 is Finish
            &&& finish_told(events) is None ==> sum.finish_reason is None && sum.reasoning is None
            &&& finish_told(events) matches Some(
                AdapterStreamEventView::Finish { finish_reason, reasoning },
            ) ==> sum.finish_reason == finish_reason && sum.reasoning == reasoning
        }),
    decreases events.len(),
{
    if events.len() > 0 {
        let rest = events.drop_last();
        assert forall|i: int| 0 <= i < rest.len() implies (#[trigger] rest[i] matches
            AdapterStreamEventView::Usage { input_tokens, output_tokens, .. }
            ==> crate::schema::response::total_fits(input_tokens, output_tokens)) by {
            assert(rest[i] == events[i]);
        }
        lemma_summed(rest);
        let last = events[events.len() - 1];
        let before = summed(rest).forwarded;
        let after = summed(events).forwarded;
        assert(forall|i: int| 0 <= i < before.len() ==> after[i] == before[i]);
    }
}

/// A stream of events is handed on event for event, in order, but for the provider's own word on
/// the end, and behind them comes the response. Its text is all the texts told, one behind the
/// other, where any were told; its calls are those whose ends were told, in order; its counts and
/// its reasoning are those told last. An error ends it for that reason and is in it; else it ended
/// for the sake of its calls, where there are any, or as the provider said, or, where it said
/// nothing, plainly.
pub proof fn law_streams_are_handed_on(
    run: EngineRunView,
    events: Seq<AdapterStreamEventView>,
    error: Option<PriestErrorView>,
    latency_ms: i64,
    now: Timestamp,
)
    requires
        run.stage is AwaitAnswer,
        run.mode == EngineMode::StreamEvents,
        totals_fit(events),
    ensures
        ({
            let (after, action) = run.step(
                EngineEventView::EventsStreamed {
                    events: Ok(EventStreamView { events, error }),
                    latency_ms,
                },
                now,
            );
            let shown = without_finish(events);
            let calls = ends_told(events);
            let opened = run.stage->opened;
            let is_saved = opened is Some && error is None && calls.len() == 0 && texts_told(
                events,
            ).len() > 0;
            &&& reply_in(after, action) matches Some(EngineReplyView::Events(told)) && {
                &&& told.len() == shown.len() + 1
                &&& forall|i: int|
                    0 <= i < shown.len() ==> tells_the_same(#[trigger] told[i], shown[i])
                &&& told.last() matches PriestStreamEventView::Done { response } && {
                    &&& texts_told(events).len() == 0 ==> response.text is None
                    &&& texts_told(events).len() > 0 ==> response.text == Some(
                        joined(texts_told(events), ""@),
                    )
                    &&& calls.len() == 0 ==> response.tool_calls is None
                    &&& calls.len() > 0 ==> response.tool_calls == Some(calls)
                    &&& response.metadata == run.request.metadata
                    &&& response.execution.provider == run.request.config.provider
                    &&& response.execution.model == run.request.config.model
                    &&& response.execution.profile == run.request.profile
                    &&& response.execution.latency_ms == Some(latency_ms)
                    &&& response.error is Some <==> error is Some
                    &&& error matches Some(e) ==> response.execution.finished_reason == Some(
                        "error"@,
                    ) && response.error->0.code == e.code() && response.error->0.message
                        == e.message() && response.error->0.details == e.details()
                    &&& error is None && calls.len() > 0 ==> response.execution.finished_reason
                        == Some("tool_calls"@)
                    &&& error is None && calls.len() == 0 ==> response.execution.finished_reason
                        == match finish_told(events) {
                        Some(
                            AdapterStreamEventView::Finish { finish_reason: Some(reason), .. },
                        ) => Some(reason),
                        _ => Some("stop"@),
                    }
                    &&& response.reasoning == match finish_told(events) {
                        Some(AdapterStreamEventView::Finish { reasoning, .. }) => reasoning,
                        _ => None,
                    }
                    &&& response.usage is Some <==> counts_told(events) is Some
                    &&& counts_told(events) matches Some(
                        AdapterStreamEventView::Usage { input_tokens, output_tokens, .. },
                    ) ==> response.usage->0.input_tokens == input_tokens
                        && response.usage->0.output_tokens == output_tokens
                    &&& response.session is Some <==> opened is Some && error is None
                    &&& response.session matches Some(info) ==> {
                        &&& info.id == opened->0.session.id
                        &&& info.is_new == opened->0.is_new
                        &&& info.turn_count == opened->0.session.turns.len() + if is_saved {
                            2nat
                        } else {
                            0
                        }
                    }
                }
                &&& action is SaveSession <==> is_saved
            }
        }),
{
    lemma_summed(events);
    let sum = summed(events);
    let (after, action) = run.step(
        EngineEventView::EventsStreamed {
            events: Ok(EventStreamView { events, error }),
            latency_ms,
        },
        now,
    );
    let told = reply_in(after, action)->0->Events_0;
    assert(forall|i: int| 0 <= i < sum.forwarded.len() ==> told[i] == sum.forwarded[i]);
}

/// A stream of texts is handed on as it came, and what is saved of it is all of it; where it broke,
/// the error is handed on and nothing is saved.
pub proof fn law_texts_are_handed_on(
    run: EngineRunView,
    chunks: Seq<Seq<char>>,
    error: Option<PriestErrorView>,
    now: Timestamp,
)
    requires
        run.stage is AwaitAnswer,
        run.mode == EngineMode::Stream,
    ensures
        ({
            let (after, action) = run.step(
                EngineEventView::TextStreamed {
                    texts: Ok(TextStreamView { chunks, error }),
                },
                now,
            );
            &&& error is None ==> reply_in(after, action) == Some(EngineReplyView::Texts(chunks))
            &&& error matches Some(e) ==> action == EngineActionView::Return(
                Ok(EngineReplyView::Broken(e)),
            )
            &&& action is SaveSession <==> error is None && run.stage->opened is Some
        }),
{
}

/// Once a session is saved the reply is returned as it was. That it could not be saved is an error
/// where the answer came whole, and is passed over where it was streamed.
pub proof fn law_replies_are_returned(
    run: EngineRunView,
    event: EngineEventView,
    saved: EngineEventView,
    now: Timestamp,
    later: Timestamp,
)
    requires
        run.stage is AwaitAnswer,
        is_awaited(run, event),
        saved is Saved,
    ensures
        run.step(event, now).1 is SaveSession ==> {
            let waiting = run.step(event, now).0;
            &&& waiting.stage is AwaitSaved
            &&& waiting.step(saved, later).1 == match saved {
                EngineEventView::Saved(Err(e)) if run.mode == EngineMode::Run =>
                    EngineActionView::Return(Err(e)),
                _ => EngineActionView::Return(Ok(waiting.stage->reply)),
            }
        },
{
}

/// A response to a failure tells the failure and nothing else: no text, no calls, no reasoning, no
/// counts and no session; and who was asked.
pub proof fn law_failures_are_told(
    run: EngineRunView,
    e: PriestErrorView,
    latency_ms: i64,
    now: Timestamp,
)
    requires
        run.stage is AwaitAnswer,
        run.mode == EngineMode::Run,
    ensures
        ({
            let (after, action) = run.step(
                EngineEventView::Completed { result: Err(e), latency_ms },
                now,
            );
            &&& action matches EngineActionView::Return(Ok(EngineReplyView::Response(response))) && {
                &&& response.text is None
                &&& response.tool_calls is None
                &&& response.reasoning is None
                &&& response.usage is None
                &&& response.session is None
                &&& response.error matches Some(told) && told.code == e.code() && told.message
                    == e.message() && told.details == e.details()
                &&& response.execution.provider == run.request.config.provider
                &&& response.execution.model == run.request.config.model
                &&& response.execution.profile == run.request.profile
                &&& response.execution.latency_ms == Some(latency_ms)
                &&& response.execution.finished_reason == Some("error"@)
            }
        }),
{
}

/// A stream is read up to its first error: what is taken from it is all that came before, in order,
/// and the error is that first one; without an error it is taken whole.
pub proof fn law_streams_are_read_up_to_their_error<V>(items: Seq<Result<V, PriestErrorView>>)
    ensures
        ({
            let taken = before_error(items);
            &&& taken.len() <= items.len()
            &&& forall|i: int| 0 <= i < taken.len() ==> items[i] == Ok::<V, PriestErrorView>(
                #[trigger] taken[i],
            )
            &&& taken.len() < items.len() ==> items[taken.len() as int] is Err && first_error(items)
                == Some(items[taken.len() as int]->Err_0)
            &&& taken.len() == items.len() ==> first_error(items) is None
        }),
    decreases items.len(),
{
    if items.len() > 0 {
        let rest = items.drop_first();
        law_streams_are_read_up_to_their_error(rest);
        if let Ok(value) = items[0] {
            let taken = before_error(items);
            let behind = before_error(rest);
            assert forall|i: int| 0 <= i < taken.len() implies items[i] == Ok::<V, PriestErrorView>(
                #[trigger] taken[i],
            ) by {
                if i > 0 {
                    assert(taken[i] == behind[i - 1]);
                    assert(rest[i - 1] == items[i]);
                }
            }
            if behind.len() < rest.len() {
                assert(rest[behind.len() as int] == items[taken.len() as int]);
            }
        }
    }
}

// ---- Compaction ----

/// A budget is exceeded where the input took more than four fifths of it. Without a budget, with
/// one of nothing, or where the input was never measured, it is not.
pub proof fn law_budget(last: Option<u32>, budget: Option<u32>)
    ensures
        over_budget(last, budget) <==> last is Some && budget is Some && budget->0 > 0 && last->0 * 10
            > budget->0 * 8,
{
}

/// The session that a request goes on with is summarised first if and only if its budget was
/// exceeded and there are turns to fold; the call for the summary is the one that compacting it
/// asks for.
pub proof fn law_long_sessions_are_summarised(
    run: EngineRunView,
    session: SessionView,
    now: Timestamp,
)
    requires
        run.stage is AwaitFound,
    ensures
        ({
            let (after, action) = run.step(EngineEventView::SessionFound(Ok(Some(session))), now);
            let call = summary_call(session, run.request.config);
            let is_long = over_budget(
                session.compaction().last_input_tokens,
                run.request.config.max_context_tokens,
            );
            &&& is_long && call is Some ==> action == (EngineActionView::Summarize {
                messages: call->0.messages,
                config: call->0.config,
            }) && after.stage is AwaitSummary && after.stage->AwaitSummary_through
                == call->0.through
            &&& !(is_long && call is Some) ==> action is Call
        }),
{
}

/// A session keeps a summary that was written for it: what is saved has the text, without the white
/// space round it, as its summary and the mark that it reaches, and the rest of its state is as it
/// was. A blank one changes nothing.
pub proof fn law_summaries_are_kept(
    session: SessionView,
    summary: Seq<char>,
    through: usize,
    now: Timestamp,
)
    requires
        through <= u64::MAX,
    ensures
        match crate::engine::compaction::compacted(session, summary, through, now) {
            None => trimmed(summary).len() == 0,
            Some(after) => {
                &&& trimmed(summary).len() > 0
                &&& after.compaction().summary == Some(trimmed(summary))
                &&& after.compaction().summarized_through == through
                &&& after.compaction().last_input_tokens == session.compaction().last_input_tokens
                &&& after.compaction().updated_at == Some(crate::clock::stamp(now))
                &&& after.turns == session.turns
                &&& after.id == session.id
                &&& after.profile_name == session.profile_name
                &&& after.created_at == session.created_at
                &&& after.updated_at == now
            },
        },
{
    crate::session::model::law_compaction_reads_back(
        session.metadata,
        crate::session::model::CompactionStateView {
            summary: Some(trimmed(summary)),
            summarized_through: through,
            updated_at: Some(crate::clock::stamp(now)),
            ..session.compaction()
        },
    );
}

/// A request that had its session summarised saves the session with that summary, and goes on in
/// it. A blank summary is passed over, and the request goes on in the session as it was.
pub proof fn law_requests_go_on_in_the_summarised_session(
    run: EngineRunView,
    result: AdapterResultView,
    saved: (),
    now: Timestamp,
    later: Timestamp,
)
    ensures
        run.stage matches EngineStageView::AwaitSummary { profile, open, through } ==> {
            let (after, action) = run.step(EngineEventView::Summarized(Ok(result)), now);
            match crate::engine::compaction::compacted(open.session, result.text, through, now) {
                Some(session) => {
                    &&& action == (EngineActionView::SaveSession { session })
                    &&& opened_in(after.stage) == Some(
                        OpenSessionView { session, is_new: open.is_new },
                    )
                    &&& after.step(EngineEventView::Saved(Ok(saved)), later).1 is Call
                    &&& opened_in(after.step(EngineEventView::Saved(Ok(saved)), later).0.stage)
                        == opened_in(after.stage)
                },
                None => {
                    &&& action is Call
                    &&& opened_in(after.stage) == Some(open)
                },
            }
        },
{
}

/// Compacting a session on demand: without a store there is nothing to do; else the session is
/// looked up. One that is missing is an error. One with nothing to fold is left as it is, and what
/// its summary reaches is told. Else a summary is asked for, of a provider that has to be there,
/// with the messages that hold what is folded; a blank one leaves the session as it is; any other
/// is kept and saved, and the mark it reaches is told.
pub proof fn law_compacting_on_demand(
    id: Seq<char>,
    config: PriestConfigView,
    registered: bool,
    session: SessionView,
    result: AdapterResultView,
    saved: (),
    now: Timestamp,
)
    ensures
        compact_start(id, config, registered, false).1 == CompactActionView::Return(
            Ok((false, 0usize)),
        ),
        ({
            let (run, action) = compact_start(id, config, registered, true);
            let call = summary_call(session, config);
            let covered = session.compaction().summarized_through;
            let found = run.step(CompactEventView::SessionFound(Ok(Some(session))), now);
            let written = found.0.step(CompactEventView::Summarized(Ok(result)), now);
            let kept = crate::engine::compaction::compacted(
                session,
                result.text,
                call->0.through,
                now,
            );
            &&& action == (CompactActionView::GetSession { id })
            &&& run.step(CompactEventView::SessionFound(Ok(None)), now).1
                == CompactActionView::Return(
                Err(PriestErrorView::SessionNotFound { session_id: id }),
            )
            &&& call is None ==> found.1 == CompactActionView::Return(Ok((false, covered)))
            &&& call is Some && !registered ==> found.1 == CompactActionView::Return(
                Err(PriestErrorView::ProviderNotRegistered { provider: config.provider }),
            )
            &&& call is Some && registered ==> {
                &&& found.1 == (CompactActionView::Summarize {
                    messages: call->0.messages,
                    config: call->0.config,
                })
                &&& kept is None ==> written.1 == CompactActionView::Return(Ok((false, covered)))
                &&& kept matches Some(after) ==> {
                    &&& written.1 == (CompactActionView::SaveSession { session: after })
                    &&& written.0.step(CompactEventView::Saved(Ok(saved)), now).1
                        == CompactActionView::Return(Ok((true, call->0.through)))
                }
            }
        }),
{
}

/// A failure on the way of compacting on demand is what it returns.
pub proof fn law_compacting_fails_with_what_it_met(
    run: CompactRunView,
    e: PriestErrorView,
    now: Timestamp,
)
    ensures
        run.stage is AwaitSession ==> run.step(CompactEventView::SessionFound(Err(e)), now).1
            == CompactActionView::Return(Err(e)),
        run.stage is AwaitSummary ==> run.step(CompactEventView::Summarized(Err(e)), now).1
            == CompactActionView::Return(Err(e)),
        run.stage is AwaitSaved ==> run.step(CompactEventView::Saved(Err(e)), now).1
            == CompactActionView::Return(Err(e)),
{
}

} // verus!
